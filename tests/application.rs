use lightmap_binding::{apply_lightmaps, lightmap_path_of, BoundSurface, LightmapInfo, LightmapLoad, LoadState};

fn surface(entity: usize, material: usize, name: &str, exposure: u32) -> BoundSurface {
    BoundSurface { entity, material, info: LightmapInfo { lightmap_name: name.to_string(), exposure } }
}

fn load_tuple(l: &LightmapLoad) -> (usize, usize, String, u32, u32) {
    (l.entity, l.material, l.path.clone(), l.lightmap_exposure, l.reflectance)
}

#[test]
fn path_follows_template() {
    assert_eq!(lightmap_path_of(&"hall_01".to_string()), "lightmaps/hall_01.ktx2");
    assert_eq!(lightmap_path_of(&"".to_string()), "lightmaps/.ktx2");
    assert_eq!(lightmap_path_of(&"a b/../c".to_string()), "lightmaps/a b/../c.ktx2");
}

#[test]
fn wall_issue_then_complete() {
    let surfaces = vec![surface(4, 9, "hall_01", 1000)];
    let mut pending: Vec<String> = Vec::new();
    let mut gate = false;
    let loads = apply_lightmaps(&surfaces, &vec![], &mut pending, &mut gate);
    assert_eq!(loads.len(), 1);
    assert_eq!(load_tuple(&loads[0]), (4, 9, "lightmaps/hall_01.ktx2".to_string(), 1000, 0));
    assert_eq!(pending, vec!["lightmaps/hall_01.ktx2".to_string()]);
    assert!(!gate);

    let loads = apply_lightmaps(&surfaces, &vec![LoadState::Loading], &mut pending, &mut gate);
    assert!(loads.is_empty());
    assert_eq!(pending.len(), 1);
    assert!(!gate);

    let loads = apply_lightmaps(&surfaces, &vec![LoadState::Loaded], &mut pending, &mut gate);
    assert!(loads.is_empty());
    assert!(pending.is_empty());
    assert!(gate);

    for _ in 0..3 {
        let loads = apply_lightmaps(&surfaces, &vec![], &mut pending, &mut gate);
        assert!(loads.is_empty());
        assert!(pending.is_empty());
        assert!(gate);
    }
}

#[test]
fn one_load_per_surface_in_order() {
    let surfaces = vec![surface(1, 10, "a", 7), surface(2, 11, "b", 1000), surface(3, 10, "a", 7)];
    let mut pending: Vec<String> = Vec::new();
    let mut gate = false;
    let loads = apply_lightmaps(&surfaces, &vec![], &mut pending, &mut gate);
    let got: Vec<_> = loads.iter().map(load_tuple).collect();
    assert_eq!(
        got,
        vec![
            (1, 10, "lightmaps/a.ktx2".to_string(), 7, 0),
            (2, 11, "lightmaps/b.ktx2".to_string(), 1000, 0),
            (3, 10, "lightmaps/a.ktx2".to_string(), 7, 0),
        ]
    );
    assert_eq!(pending.len(), 3);
    let states = vec![LoadState::Loading; 3];
    for _ in 0..5 {
        assert!(apply_lightmaps(&surfaces, &states, &mut pending, &mut gate).is_empty());
        assert_eq!(pending.len(), 3);
    }
}

#[test]
fn partial_completion_keeps_whole_set() {
    let surfaces = vec![surface(1, 1, "a", 1), surface(2, 2, "b", 2)];
    let mut pending: Vec<String> = Vec::new();
    let mut gate = false;
    apply_lightmaps(&surfaces, &vec![], &mut pending, &mut gate);
    let before = pending.clone();
    for states in [
        vec![LoadState::Loaded, LoadState::Loading],
        vec![LoadState::Loaded, LoadState::Failed],
        vec![LoadState::NotFound, LoadState::Loaded],
    ] {
        assert!(apply_lightmaps(&surfaces, &states, &mut pending, &mut gate).is_empty());
        assert_eq!(pending, before);
        assert!(!gate);
    }
    apply_lightmaps(&surfaces, &vec![LoadState::Loaded, LoadState::Loaded], &mut pending, &mut gate);
    assert!(pending.is_empty());
    assert!(gate);
}

#[test]
fn failed_load_keeps_waiting() {
    let surfaces = vec![surface(1, 1, "a", 1)];
    let mut pending: Vec<String> = Vec::new();
    let mut gate = false;
    apply_lightmaps(&surfaces, &vec![], &mut pending, &mut gate);
    for _ in 0..4 {
        assert!(apply_lightmaps(&surfaces, &vec![LoadState::Failed], &mut pending, &mut gate).is_empty());
        assert_eq!(pending.len(), 1);
        assert!(!gate);
    }
}

#[test]
fn no_bound_surfaces_keeps_issuing() {
    let mut pending: Vec<String> = Vec::new();
    let mut gate = false;
    assert!(apply_lightmaps(&vec![], &vec![], &mut pending, &mut gate).is_empty());
    assert!(pending.is_empty());
    assert!(!gate);
    let surfaces = vec![surface(5, 6, "late", 1000)];
    let loads = apply_lightmaps(&surfaces, &vec![], &mut pending, &mut gate);
    assert_eq!(loads.len(), 1);
    assert_eq!(loads[0].path, "lightmaps/late.ktx2");
}

#[test]
fn done_gate_issues_nothing() {
    let surfaces = vec![surface(1, 1, "a", 1)];
    let mut pending: Vec<String> = Vec::new();
    let mut gate = true;
    assert!(apply_lightmaps(&surfaces, &vec![], &mut pending, &mut gate).is_empty());
    assert!(pending.is_empty());
    assert!(gate);
}
