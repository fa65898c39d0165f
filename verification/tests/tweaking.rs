use shader_material::material::{MaterialHandle, MaterialTable};
use shader_material::parameter_set::ParameterSet;
use shader_material::params::{FieldKind, ParamValue};
use shader_material::tweak::{
    apply_edit, apply_edit_by_name, apply_edits, properties, Edit, TweakError,
};

const SHADER: &str = "shaders/custom_shader.wgsl";

fn table_with_demo() -> (MaterialTable, MaterialHandle) {
    let mut set = ParameterSet::new();
    set.push("spatial_repetition".to_string(), 0, ParamValue::Float(1.5f32.to_bits())).unwrap();
    set.push("iterations".to_string(), 0, ParamValue::Uint(3)).unwrap();
    set.push("tint".to_string(), 0, ParamValue::Vector(1, 2, 3, 4)).unwrap();
    let mut table = MaterialTable::new();
    let h = table.create(42, set, SHADER.to_string(), None);
    (table, h)
}

#[test]
fn every_field_is_a_property() {
    let (table, h) = table_with_demo();
    let list = properties(&table, h).unwrap();
    assert_eq!(list.len(), 3);
    assert_eq!(list[0].index, 0);
    assert_eq!(list[0].name, "spatial_repetition");
    assert_eq!(list[0].kind, FieldKind::Float);
    assert_eq!(list[0].value, ParamValue::Float(1.5f32.to_bits()));
    assert_eq!(list[1].index, 1);
    assert_eq!(list[1].name, "iterations");
    assert_eq!(list[1].kind, FieldKind::Uint);
    assert_eq!(list[1].value, ParamValue::Uint(3));
    assert_eq!(list[2].index, 2);
    assert_eq!(list[2].name, "tint");
    assert_eq!(list[2].kind, FieldKind::Vector);
    assert_eq!(list[2].value, ParamValue::Vector(1, 2, 3, 4));
    assert!(properties(&table, MaterialHandle { index: 9 }).is_none());
}

#[test]
fn edit_lands_at_the_offset_of_its_field() {
    let (mut table, h) = table_with_demo();
    let before = table.uniform(h).unwrap().clone();
    assert_eq!(before.len(), 32);
    assert_eq!(apply_edit(&mut table, h, 1, ParamValue::Uint(0xAABB_CCDD)), Ok(()));
    assert!(table.get(h).unwrap().is_dirty());
    let after = table.uniform(h).unwrap().clone();
    assert_eq!(after.len(), 32);
    assert_eq!(&after[4..8], &[0xDD, 0xCC, 0xBB, 0xAA]);
    assert_eq!(&after[..4], &before[..4]);
    assert_eq!(&after[8..], &before[8..]);
    assert_eq!(properties(&table, h).unwrap()[1].value, ParamValue::Uint(0xAABB_CCDD));
}

#[test]
fn edit_of_a_float_writes_its_bits() {
    let (mut table, h) = table_with_demo();
    table.refresh(h);
    assert_eq!(apply_edit(&mut table, h, 0, ParamValue::Float(2.75f32.to_bits())), Ok(()));
    let after = table.uniform(h).unwrap();
    assert_eq!(&after[0..4], &2.75f32.to_le_bytes());
    assert_eq!(&after[4..8], &[3, 0, 0, 0]);
}

#[test]
fn values_pass_through_unchanged() {
    let (mut table, h) = table_with_demo();
    assert_eq!(apply_edit(&mut table, h, 1, ParamValue::Uint(u32::MAX)), Ok(()));
    assert_eq!(apply_edit(&mut table, h, 0, ParamValue::Float(f32::NAN.to_bits())), Ok(()));
    let list = properties(&table, h).unwrap();
    assert_eq!(list[1].value, ParamValue::Uint(u32::MAX));
    assert_eq!(list[0].value, ParamValue::Float(f32::NAN.to_bits()));
    let buf = table.uniform(h).unwrap();
    assert_eq!(&buf[4..8], &[0xFF; 4]);
    assert_eq!(&buf[0..4], &f32::NAN.to_le_bytes());
}

#[test]
fn refused_edits_change_nothing() {
    let (mut table, h) = table_with_demo();
    table.refresh(h);
    assert_eq!(
        apply_edit(&mut table, MaterialHandle { index: 5 }, 0, ParamValue::Uint(1)),
        Err(TweakError::NoSuchMaterial)
    );
    assert_eq!(apply_edit(&mut table, h, 3, ParamValue::Uint(1)), Err(TweakError::NoSuchField));
    assert_eq!(apply_edit(&mut table, h, 1, ParamValue::Float(1)), Err(TweakError::KindMismatch));
    assert_eq!(
        apply_edit(&mut table, h, 2, ParamValue::Uint(1)),
        Err(TweakError::KindMismatch)
    );
    assert!(!table.get(h).unwrap().is_dirty());
    assert_eq!(properties(&table, h).unwrap()[1].value, ParamValue::Uint(3));
}

#[test]
fn edit_by_name_finds_the_field() {
    let (mut table, h) = table_with_demo();
    table.refresh(h);
    let tint = "tint".to_string();
    assert_eq!(apply_edit_by_name(&mut table, h, &tint, ParamValue::Vector(9, 8, 7, 6)), Ok(()));
    assert_eq!(properties(&table, h).unwrap()[2].value, ParamValue::Vector(9, 8, 7, 6));
    let buf = table.uniform(h).unwrap();
    assert_eq!(&buf[16..32], &[9, 0, 0, 0, 8, 0, 0, 0, 7, 0, 0, 0, 6, 0, 0, 0]);
    assert_eq!(
        apply_edit_by_name(&mut table, h, &"nothing".to_string(), ParamValue::Uint(1)),
        Err(TweakError::NoSuchField)
    );
    assert_eq!(
        apply_edit_by_name(&mut table, h, &tint, ParamValue::Uint(1)),
        Err(TweakError::KindMismatch)
    );
    assert_eq!(
        apply_edit_by_name(&mut table, MaterialHandle { index: 7 }, &tint, ParamValue::Uint(1)),
        Err(TweakError::NoSuchMaterial)
    );
}

#[test]
fn edits_are_applied_in_order() {
    let (mut table, h) = table_with_demo();
    let edits = vec![
        Edit { material: h, field: 1, value: ParamValue::Uint(10) },
        Edit { material: h, field: 7, value: ParamValue::Uint(11) },
        Edit { material: h, field: 1, value: ParamValue::Uint(12) },
    ];
    let results = apply_edits(&mut table, &edits);
    assert_eq!(results, vec![Ok(()), Err(TweakError::NoSuchField), Ok(())]);
    assert_eq!(properties(&table, h).unwrap()[1].value, ParamValue::Uint(12));
    assert!(apply_edits(&mut table, &Vec::new()).is_empty());
}
