use shader_material::material::{MaterialHandle, MaterialTable};
use shader_material::parameter_set::ParameterSet;
use shader_material::params::{BlockBinding, ParamValue};

const SHADER: &str = "shaders/custom_shader.wgsl";

fn demo_set() -> ParameterSet {
    let mut set = ParameterSet::new();
    set.push("spatial_repetition".to_string(), 0, ParamValue::Float(1.5f32.to_bits())).unwrap();
    set.push("iterations".to_string(), 0, ParamValue::Uint(3)).unwrap();
    set
}

fn demo_bytes(iterations: u8) -> Vec<u8> {
    vec![0x00, 0x00, 0xC0, 0x3F, iterations, 0, 0, 0, 0, 0, 0, 0, 0, 0, 0, 0]
}

#[test]
fn created_material_is_packed_on_first_use() {
    let mut table = MaterialTable::new();
    let h = table.create(42, demo_set(), SHADER.to_string(), None);
    assert_eq!(h, MaterialHandle { index: 0 });
    assert!(table.is_live(h));
    {
        let m = table.get(h).unwrap();
        assert_eq!(m.type_tag(), 42);
        assert_eq!(m.shader(), SHADER);
        assert!(m.entry_point().is_none());
        assert!(m.is_dirty());
        assert!(m.buffer().is_empty());
        assert!(m.bindings().is_empty());
        assert_eq!(m.params().len(), 2);
    }
    assert_eq!(table.uniform(h).unwrap(), &demo_bytes(3));
    let m = table.get(h).unwrap();
    assert!(!m.is_dirty());
    assert_eq!(m.buffer(), &demo_bytes(3));
    assert_eq!(m.bindings(), &vec![BlockBinding { slot: 0, offset: 0, size: 16 }]);
}

#[test]
fn get_mut_marks_dirty_and_buffer_follows_lazily() {
    let mut table = MaterialTable::new();
    let h = table.create(42, demo_set(), SHADER.to_string(), None);
    assert!(table.refresh(h));
    assert!(!table.refresh(h));

    let params = table.get_mut(h).unwrap();
    assert_eq!(params.set_value(1, ParamValue::Uint(9)), Ok(()));
    // the buffer is stale until the next refresh
    assert!(table.get(h).unwrap().is_dirty());
    assert_eq!(table.get(h).unwrap().buffer(), &demo_bytes(3));
    assert!(table.refresh(h));
    assert!(!table.get(h).unwrap().is_dirty());
    assert_eq!(table.get(h).unwrap().buffer(), &demo_bytes(9));
}

#[test]
fn get_mut_alone_marks_dirty() {
    let mut table = MaterialTable::new();
    let h = table.create(42, demo_set(), SHADER.to_string(), None);
    table.refresh(h);
    assert!(table.get_mut(h).is_some());
    assert!(table.get(h).unwrap().is_dirty());
    assert_eq!(table.repack_dirty(), 1);
    assert_eq!(table.get(h).unwrap().buffer(), &demo_bytes(3));
}

#[test]
fn repack_dirty_counts_stale_buffers() {
    let mut table = MaterialTable::new();
    let a = table.create(1, demo_set(), SHADER.to_string(), None);
    let b = table.create(1, demo_set(), SHADER.to_string(), None);
    let c = table.create(2, ParameterSet::new(), SHADER.to_string(), Some("main".to_string()));
    assert_eq!(table.repack_dirty(), 3);
    assert_eq!(table.repack_dirty(), 0);
    table.get_mut(b).unwrap().set_value(1, ParamValue::Uint(4)).unwrap();
    assert!(table.destroy(c));
    assert_eq!(table.repack_dirty(), 1);
    assert_eq!(table.get(a).unwrap().buffer(), &demo_bytes(3));
    assert_eq!(table.get(b).unwrap().buffer(), &demo_bytes(4));
}

#[test]
fn destroyed_handle_stays_dead() {
    let mut table = MaterialTable::new();
    let a = table.create(1, demo_set(), SHADER.to_string(), None);
    assert!(table.destroy(a));
    assert!(!table.destroy(a));
    assert!(!table.is_live(a));
    assert!(table.get(a).is_none());
    assert!(table.get_mut(a).is_none());
    assert!(table.uniform(a).is_none());
    assert!(!table.refresh(a));
    let b = table.create(1, demo_set(), SHADER.to_string(), None);
    assert_ne!(a, b);
    assert_eq!(b.index, 1);
    assert!(!table.is_live(a));
    assert!(table.is_live(b));
    assert_eq!(table.len(), 2);
}

#[test]
fn unknown_handle_is_not_live() {
    let mut table = MaterialTable::new();
    let ghost = MaterialHandle { index: 3 };
    assert!(!table.is_live(ghost));
    assert!(table.get(ghost).is_none());
    assert!(table.get_mut(ghost).is_none());
    assert!(!table.destroy(ghost));
    assert_eq!(table.len(), 0);
}

#[test]
fn empty_material_has_an_empty_buffer() {
    let mut table = MaterialTable::new();
    let h = table.create(5, ParameterSet::new(), SHADER.to_string(), Some("my_entry_point".to_string()));
    assert_eq!(table.uniform(h).unwrap(), &Vec::<u8>::new());
    let m = table.get(h).unwrap();
    assert!(m.bindings().is_empty());
    assert_eq!(m.entry_point().unwrap(), "my_entry_point");
}

#[test]
fn material_lives_while_it_is_referenced() {
    let mut table = MaterialTable::new();
    let h = table.create(1, demo_set(), SHADER.to_string(), None);
    assert_eq!(table.get(h).unwrap().refs(), 1);
    assert!(table.retain(h));
    assert!(table.retain(h));
    assert_eq!(table.get(h).unwrap().refs(), 3);
    assert!(!table.release(h));
    assert!(!table.release(h));
    assert_eq!(table.get(h).unwrap().refs(), 1);
    assert!(table.is_live(h));
    assert!(table.release(h));
    assert!(!table.is_live(h));
    assert!(!table.release(h));
    assert!(!table.retain(h));
    assert!(!table.retain(MaterialHandle { index: 8 }));
}
