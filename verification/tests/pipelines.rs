use shader_material::pipeline::{declares, PipelineCache, PipelineError, PipelineKey};

fn names(list: &[&str]) -> Vec<String> {
    list.iter().map(|s| s.to_string()).collect()
}

fn key(type_tag: u128, vertex_layout: u64, entry_point: Option<&str>, revision: u64) -> PipelineKey {
    PipelineKey {
        type_tag,
        vertex_layout,
        entry_point: entry_point.map(|s| s.to_string()),
        revision,
    }
}

#[test]
fn default_entry_point_is_fragment() {
    let mut cache = PipelineCache::new();
    let id = cache.get_or_build(key(1, 2, None, 0), &names(&["vertex", "fragment"]));
    assert_eq!(id, Ok(0));
    let pipeline = cache.pipeline(0).unwrap();
    assert_eq!(pipeline.entry_point, "fragment");
    assert_eq!(pipeline.id, 0);
    assert!(pipeline.key.same(&key(1, 2, None, 0)));
}

#[test]
fn override_entry_point_is_recorded() {
    let mut cache = PipelineCache::new();
    let declared = names(&["fragment", "my_entry_point"]);
    let id = cache.get_or_build(key(1, 2, Some("my_entry_point"), 0), &declared).unwrap();
    assert_eq!(cache.pipeline(id).unwrap().entry_point, "my_entry_point");
    let found = cache.get(&key(1, 2, Some("my_entry_point"), 0)).unwrap();
    assert_eq!(found.id, id);
    assert_eq!(found.entry_point, "my_entry_point");
}

#[test]
fn equal_keys_share_one_pipeline() {
    let mut cache = PipelineCache::new();
    let declared = names(&["fragment"]);
    let first = cache.get_or_build(key(7, 3, None, 0), &declared).unwrap();
    for _ in 0..100 {
        assert_eq!(cache.get_or_build(key(7, 3, None, 0), &declared), Ok(first));
    }
    assert_eq!(cache.len(), 1);
    // a hit needs nothing from the shader module
    assert_eq!(cache.get_or_build(key(7, 3, None, 0), &names(&[])), Ok(first));
    assert_eq!(cache.len(), 1);
}

#[test]
fn different_keys_get_different_pipelines() {
    let mut cache = PipelineCache::new();
    let declared = names(&["fragment", "other"]);
    let a = cache.get_or_build(key(7, 3, None, 0), &declared).unwrap();
    let b = cache.get_or_build(key(8, 3, None, 0), &declared).unwrap();
    let c = cache.get_or_build(key(7, 4, None, 0), &declared).unwrap();
    let d = cache.get_or_build(key(7, 3, Some("other"), 0), &declared).unwrap();
    let e = cache.get_or_build(key(7, 3, None, 1), &declared).unwrap();
    assert_eq!(vec![a, b, c, d, e], vec![0, 1, 2, 3, 4]);
    assert_eq!(cache.len(), 5);
    // an override that names the default is still another key
    let f = cache.get_or_build(key(7, 3, Some("fragment"), 0), &declared).unwrap();
    assert_eq!(f, 5);
    assert_eq!(cache.pipeline(f).unwrap().entry_point, "fragment");
}

#[test]
fn undeclared_entry_point_builds_nothing() {
    let mut cache = PipelineCache::new();
    assert_eq!(
        cache.get_or_build(key(1, 2, Some("missing"), 0), &names(&["fragment"])),
        Err(PipelineError::UnknownEntryPoint)
    );
    assert_eq!(
        cache.get_or_build(key(1, 2, None, 0), &names(&["vertex"])),
        Err(PipelineError::UnknownEntryPoint)
    );
    assert_eq!(cache.len(), 0);
    assert!(cache.get(&key(1, 2, None, 0)).is_none());
    assert!(cache.pipeline(0).is_none());
}

#[test]
fn invalidation_drops_other_revisions() {
    let mut cache = PipelineCache::new();
    let declared = names(&["fragment"]);
    let old_a = cache.get_or_build(key(1, 1, None, 0), &declared).unwrap();
    let old_b = cache.get_or_build(key(2, 1, None, 0), &declared).unwrap();
    let new_a = cache.get_or_build(key(1, 1, None, 1), &declared).unwrap();
    assert_eq!(cache.invalidate(1), 2);
    assert_eq!(cache.len(), 1);
    assert!(cache.pipeline(old_a).is_none());
    assert!(cache.pipeline(old_b).is_none());
    assert_eq!(cache.get(&key(1, 1, None, 1)).unwrap().id, new_a);
    assert!(cache.get(&key(1, 1, None, 0)).is_none());
    assert_eq!(cache.invalidate(1), 0);
    // identities are not handed out again
    let next = cache.get_or_build(key(2, 1, None, 1), &declared).unwrap();
    assert_eq!(next, 3);
}

#[test]
fn keys_compare_by_all_four_parts() {
    let base = key(1, 2, Some("e"), 3);
    assert!(base.same(&key(1, 2, Some("e"), 3)));
    assert!(base.same(&base.clone()));
    assert!(!base.same(&key(9, 2, Some("e"), 3)));
    assert!(!base.same(&key(1, 9, Some("e"), 3)));
    assert!(!base.same(&key(1, 2, Some("f"), 3)));
    assert!(!base.same(&key(1, 2, None, 3)));
    assert!(!base.same(&key(1, 2, Some("e"), 9)));
    assert!(key(1, 2, None, 3).same(&key(1, 2, None, 3)));
}

#[test]
fn declared_names_are_matched_exactly() {
    let declared = names(&["vertex", "fragment"]);
    assert!(declares(&declared, &"fragment".to_string()));
    assert!(!declares(&declared, &"Fragment".to_string()));
    assert!(!declares(&names(&[]), &"fragment".to_string()));
}
