use shader_material::layout::{BLOCK_ALIGN, MAX_BLOCK_SIZE};
use shader_material::parameter_set::{EditError, FieldDescriptor, LayoutError, ParameterSet};
use shader_material::params::{BlockBinding, FieldKind, ParamValue};

fn float(x: f32) -> ParamValue {
    ParamValue::Float(x.to_bits())
}

fn vector(x: f32, y: f32, z: f32, w: f32) -> ParamValue {
    ParamValue::Vector(x.to_bits(), y.to_bits(), z.to_bits(), w.to_bits())
}

fn demo_set() -> ParameterSet {
    let mut set = ParameterSet::new();
    assert_eq!(set.push("spatial_repetition".to_string(), 0, float(1.5)), Ok(()));
    assert_eq!(set.push("iterations".to_string(), 0, ParamValue::Uint(3)), Ok(()));
    set
}

fn mixed_set() -> ParameterSet {
    let mut set = ParameterSet::new();
    assert_eq!(set.push("a".to_string(), 0, float(1.0)), Ok(()));
    assert_eq!(set.push("b".to_string(), 0, vector(1.0, 2.0, 3.0, 4.0)), Ok(()));
    assert_eq!(set.push("c".to_string(), 0, ParamValue::Uint(0x0102_0304)), Ok(()));
    assert_eq!(set.push("d".to_string(), 0, float(-2.0)), Ok(()));
    assert_eq!(set.push("e".to_string(), 0, vector(0.0, 0.5, 0.25, 8.0)), Ok(()));
    set
}

#[test]
fn two_scalars_pack_to_one_block() {
    let buf = demo_set().pack();
    assert_eq!(buf.len(), 16);
    assert_eq!(&buf[0..4], &1.5f32.to_le_bytes());
    assert_eq!(&buf[0..4], &[0x00, 0x00, 0xC0, 0x3F]);
    assert_eq!(&buf[4..8], &[3, 0, 0, 0]);
    assert_eq!(&buf[8..16], &[0u8; 8]);
}

#[test]
fn empty_set_packs_to_nothing() {
    let set = ParameterSet::new();
    assert!(set.is_empty());
    assert_eq!(set.len(), 0);
    assert_eq!(set.pack(), Vec::<u8>::new());
    let (buf, bindings) = set.pack_with_bindings();
    assert!(buf.is_empty());
    assert!(bindings.is_empty());
    assert!(set.descriptors().is_empty());
}

#[test]
fn integers_are_written_least_significant_byte_first() {
    let mut set = ParameterSet::new();
    assert_eq!(set.push("x".to_string(), 0, ParamValue::Uint(0x0102_0304)), Ok(()));
    let buf = set.pack();
    assert_eq!(buf, vec![4, 3, 2, 1, 0, 0, 0, 0, 0, 0, 0, 0, 0, 0, 0, 0]);
}

#[test]
fn vectors_are_aligned_to_sixteen_bytes() {
    let buf = mixed_set().pack();
    assert_eq!(buf.len(), 64);
    assert_eq!(&buf[0..4], &1.0f32.to_le_bytes());
    assert_eq!(&buf[4..16], &[0u8; 12]);
    assert_eq!(&buf[16..20], &1.0f32.to_le_bytes());
    assert_eq!(&buf[20..24], &2.0f32.to_le_bytes());
    assert_eq!(&buf[24..28], &3.0f32.to_le_bytes());
    assert_eq!(&buf[28..32], &4.0f32.to_le_bytes());
    assert_eq!(&buf[32..36], &[4, 3, 2, 1]);
    assert_eq!(&buf[36..40], &(-2.0f32).to_le_bytes());
    assert_eq!(&buf[40..48], &[0u8; 8]);
    assert_eq!(&buf[48..52], &0.0f32.to_le_bytes());
    assert_eq!(&buf[52..56], &0.5f32.to_le_bytes());
    assert_eq!(&buf[56..60], &0.25f32.to_le_bytes());
    assert_eq!(&buf[60..64], &8.0f32.to_le_bytes());
}

#[test]
fn length_is_sum_of_padded_sizes_rounded_up() {
    // three scalars and two vectors: 4, (12 + 16), 4, 4, (8 + 16) = 64
    assert_eq!(mixed_set().pack().len(), 64);
    // five scalars: 20 bytes, rounded up to 32
    let mut scalars = ParameterSet::new();
    for i in 0..5u32 {
        assert_eq!(scalars.push(format!("s{}", i), 0, ParamValue::Uint(i)), Ok(()));
    }
    assert_eq!(scalars.pack().len(), 32);
    // a vector alone fills its block exactly
    let mut one = ParameterSet::new();
    assert_eq!(one.push("v".to_string(), 0, vector(1.0, 1.0, 1.0, 1.0)), Ok(()));
    assert_eq!(one.pack().len(), 16);
    assert_eq!(one.pack().len() % BLOCK_ALIGN, 0);
}

#[test]
fn packing_again_gives_the_same_buffer() {
    let set = mixed_set();
    let first = set.pack();
    let second = set.pack();
    assert_eq!(first, second);
    assert_eq!(set.pack_with_bindings().0, first);
}

#[test]
fn names_do_not_enter_the_buffer() {
    let mut other = ParameterSet::new();
    assert_eq!(other.push("x".to_string(), 0, float(1.5)), Ok(()));
    assert_eq!(other.push("y".to_string(), 0, ParamValue::Uint(3)), Ok(()));
    assert_eq!(other.pack(), demo_set().pack());
}

#[test]
fn descriptors_give_slot_offset_and_size() {
    let table = mixed_set().descriptors();
    let expected = vec![
        FieldDescriptor { slot: 0, offset: 0, size: 4 },
        FieldDescriptor { slot: 0, offset: 16, size: 16 },
        FieldDescriptor { slot: 0, offset: 32, size: 4 },
        FieldDescriptor { slot: 0, offset: 36, size: 4 },
        FieldDescriptor { slot: 0, offset: 48, size: 16 },
    ];
    assert_eq!(table, expected);
}

#[test]
fn slots_are_packed_in_ascending_order() {
    let mut set = ParameterSet::new();
    assert_eq!(set.push("late".to_string(), 5, ParamValue::Uint(7)), Ok(()));
    assert_eq!(set.push("early".to_string(), 2, float(1.0)), Ok(()));
    assert_eq!(set.push("late_too".to_string(), 5, ParamValue::Uint(9)), Ok(()));
    let (buf, bindings) = set.pack_with_bindings();
    assert_eq!(buf.len(), 32);
    assert_eq!(&buf[0..4], &1.0f32.to_le_bytes());
    assert_eq!(&buf[4..16], &[0u8; 12]);
    assert_eq!(&buf[16..20], &[7, 0, 0, 0]);
    assert_eq!(&buf[20..24], &[9, 0, 0, 0]);
    assert_eq!(&buf[24..32], &[0u8; 8]);
    assert_eq!(
        bindings,
        vec![
            BlockBinding { slot: 2, offset: 0, size: 16 },
            BlockBinding { slot: 5, offset: 16, size: 16 },
        ]
    );
    assert_eq!(
        set.descriptors(),
        vec![
            FieldDescriptor { slot: 5, offset: 0, size: 4 },
            FieldDescriptor { slot: 2, offset: 0, size: 4 },
            FieldDescriptor { slot: 5, offset: 4, size: 4 },
        ]
    );
}

#[test]
fn highest_slot_is_packed() {
    let mut set = ParameterSet::new();
    assert_eq!(set.push("top".to_string(), u32::MAX, ParamValue::Uint(1)), Ok(()));
    assert_eq!(set.push("bottom".to_string(), 0, ParamValue::Uint(2)), Ok(()));
    let (buf, bindings) = set.pack_with_bindings();
    assert_eq!(buf.len(), 32);
    assert_eq!(buf[0], 2);
    assert_eq!(buf[16], 1);
    assert_eq!(bindings[1], BlockBinding { slot: u32::MAX, offset: 16, size: 16 });
}

#[test]
fn duplicate_name_is_refused() {
    let mut set = demo_set();
    assert_eq!(
        set.push("iterations".to_string(), 1, ParamValue::Uint(9)),
        Err(LayoutError::DuplicateName)
    );
    assert_eq!(set.len(), 2);
    assert_eq!(set.pack().len(), 16);
}

#[test]
fn block_past_the_limit_is_refused() {
    let mut set = ParameterSet::new();
    let count = MAX_BLOCK_SIZE / 16;
    for i in 0..count {
        assert_eq!(set.push(format!("v{}", i), 0, vector(0.0, 0.0, 0.0, 1.0)), Ok(()));
    }
    assert_eq!(set.len(), count);
    assert_eq!(
        set.push("one_more".to_string(), 0, ParamValue::Uint(1)),
        Err(LayoutError::BlockTooLarge)
    );
    assert_eq!(set.len(), count);
    // another slot still has room
    assert_eq!(set.push("elsewhere".to_string(), 1, ParamValue::Uint(1)), Ok(()));
    assert_eq!(set.pack().len(), MAX_BLOCK_SIZE + 16);
}

#[test]
fn edit_of_other_kind_is_refused() {
    let mut set = demo_set();
    assert_eq!(set.set_value(1, ParamValue::Float(0)), Err(EditError::KindMismatch));
    assert_eq!(set.set_value(2, ParamValue::Uint(0)), Err(EditError::NoSuchField));
    assert_eq!(set.value(1), Some(ParamValue::Uint(3)));
    assert_eq!(set.value(2), None);
}

#[test]
fn edit_changes_the_bytes_of_its_field_only() {
    let mut set = mixed_set();
    let before = set.pack();
    assert_eq!(set.set_value(3, float(10.0)), Ok(()));
    let after = set.pack();
    assert_eq!(after.len(), before.len());
    assert_eq!(&after[36..40], &10.0f32.to_le_bytes());
    assert_eq!(&after[..36], &before[..36]);
    assert_eq!(&after[40..], &before[40..]);
    assert_eq!(set.descriptors()[3], FieldDescriptor { slot: 0, offset: 36, size: 4 });
}

#[test]
fn fields_are_found_by_position_and_name() {
    let set = demo_set();
    assert_eq!(set.index_of(&"iterations".to_string()), Some(1));
    assert_eq!(set.index_of(&"spatial_repetition".to_string()), Some(0));
    assert_eq!(set.index_of(&"missing".to_string()), None);
    let field = set.field(0).unwrap();
    assert_eq!(field.name, "spatial_repetition");
    assert_eq!(field.slot, 0);
    assert_eq!(field.value, float(1.5));
    assert_eq!(field.value.kind(), FieldKind::Float);
    assert!(set.field(2).is_none());
    assert_eq!(ParamValue::Uint(1).kind(), FieldKind::Uint);
    assert_eq!(vector(0.0, 0.0, 0.0, 0.0).kind(), FieldKind::Vector);
}
