use shader_material::custom_material::{CustomMaterial, CUSTOM_MATERIAL_TAG};
use shader_material::parameter_set::ParameterSet;
use shader_material::params::ParamValue;

#[test]
fn custom_material_declares_two_fields_at_slot_zero() {
    let m = CustomMaterial { spatial_repetition: 1.5f32.to_bits(), iterations: 3 };
    let set = m.parameters();
    assert_eq!(set.len(), 2);
    let first = set.field(0).unwrap();
    assert_eq!(first.name, "spatial_repetition");
    assert_eq!(first.slot, 0);
    assert_eq!(first.value, ParamValue::Float(0x3FC0_0000));
    let second = set.field(1).unwrap();
    assert_eq!(second.name, "iterations");
    assert_eq!(second.slot, 0);
    assert_eq!(second.value, ParamValue::Uint(3));
}

#[test]
fn custom_material_packs_to_sixteen_bytes() {
    let m = CustomMaterial { spatial_repetition: 1.5f32.to_bits(), iterations: 3 };
    assert_eq!(
        m.parameters().pack(),
        vec![0x00, 0x00, 0xC0, 0x3F, 0x03, 0, 0, 0, 0, 0, 0, 0, 0, 0, 0, 0]
    );
    let other = CustomMaterial { spatial_repetition: 0x1122_3344, iterations: 0x5566_7788 };
    assert_eq!(
        other.parameters().pack(),
        vec![0x44, 0x33, 0x22, 0x11, 0x88, 0x77, 0x66, 0x55, 0, 0, 0, 0, 0, 0, 0, 0]
    );
}

#[test]
fn custom_material_reads_back_from_its_parameters() {
    let m = CustomMaterial { spatial_repetition: 2.0f32.to_bits(), iterations: 8 };
    let mut set = m.parameters();
    assert_eq!(CustomMaterial::from_parameters(&set), Some(m));
    set.set_value(1, ParamValue::Uint(9)).unwrap();
    assert_eq!(
        CustomMaterial::from_parameters(&set),
        Some(CustomMaterial { spatial_repetition: 2.0f32.to_bits(), iterations: 9 })
    );
    assert_eq!(CustomMaterial::from_parameters(&ParameterSet::new()), None);
    let mut swapped = ParameterSet::new();
    swapped.push("iterations".to_string(), 0, ParamValue::Uint(1)).unwrap();
    swapped.push("spatial_repetition".to_string(), 0, ParamValue::Float(0)).unwrap();
    assert_eq!(CustomMaterial::from_parameters(&swapped), None);
}

#[test]
fn custom_material_names_its_shader_and_type() {
    assert_eq!(CustomMaterial::fragment_shader(), "shaders/custom_shader.wgsl");
    assert_eq!(CustomMaterial::type_tag(), 0x515FB3B617D849C08C3696BBD337A5B2);
    assert_eq!(CustomMaterial::type_tag(), CUSTOM_MATERIAL_TAG);
    assert!(CustomMaterial::entry_point().is_none());
}
