use texture_registry::load_state::LoadState;
use texture_registry::registry::{
    check_layout, check_packing, derive_names, first_duplicate, only_until_ready, Atlas, AtlasBuildError,
    Finalize, LoadHandle, Packing, Rect, ShouldRun, Textures,
};

fn handles(n: u64) -> Vec<LoadHandle> {
    (1..=n).map(|id| LoadHandle { id }).collect()
}

fn paths(names: &[&str]) -> Vec<String> {
    names.iter().map(|s| s.to_string()).collect()
}

fn rect(x: u32, y: u32, w: u32, h: u32) -> Rect {
    Rect { min_x: x, min_y: y, max_x: x + w, max_y: y + h }
}

fn packing(regions: Vec<Rect>, indices: Vec<usize>) -> Packing {
    Packing { atlas: Atlas { handle: 7, width: 128, height: 64, regions }, indices }
}

fn loaded(n: usize) -> Vec<LoadState> {
    vec![LoadState::Loaded; n]
}

fn assert_unpublished(t: &Textures) {
    assert!(t.lookup_table().is_empty());
    assert_eq!(t.texture_atlas().handle, 0);
    assert!(t.texture_atlas().regions.is_empty());
}

#[test]
fn new_registry_is_ready_and_empty() {
    let t = Textures::new();
    assert!(t.is_ready());
    assert!(t.pending_handles().is_none());
    assert_unpublished(&t);
    assert_eq!(only_until_ready(&t), ShouldRun::No);
}

#[test]
fn default_registry_matches_new() {
    let t = Textures::default();
    assert!(t.is_ready());
    assert_unpublished(&t);
}

#[test]
fn begin_load_makes_registry_pending() {
    let mut t = Textures::new();
    t.begin_load(handles(3));
    assert!(!t.is_ready());
    assert_eq!(t.pending_handles().unwrap(), &handles(3));
    assert_eq!(only_until_ready(&t), ShouldRun::Yes);
    assert_unpublished(&t);
}

#[test]
fn finalize_without_batch_is_skipped() {
    let mut t = Textures::new();
    let r = t.try_finalize(&vec![], &vec![], None);
    assert!(matches!(r, Ok(Finalize::Skipped)));
    assert!(t.is_ready());
    assert_unpublished(&t);
}

#[test]
fn finalize_while_loading_publishes_nothing() {
    let mut t = Textures::new();
    t.begin_load(handles(3));
    let states = vec![LoadState::Loaded, LoadState::Loading, LoadState::Unloaded];
    let p = paths(&["textures/grass.png", "textures/water.png", "textures/stone.png"]);
    let r = t.try_finalize(&states, &p, None);
    assert!(matches!(r, Ok(Finalize::Skipped)));
    assert!(!t.is_ready());
    assert_unpublished(&t);
    assert_eq!(only_until_ready(&t), ShouldRun::Yes);
}

#[test]
fn three_images_are_published() {
    let mut t = Textures::new();
    t.begin_load(handles(3));
    let p = paths(&["textures/grass.png", "textures/water.png", "textures/stone.png"]);
    let regions = vec![rect(0, 0, 64, 64), rect(64, 0, 32, 48), rect(96, 0, 16, 16)];
    let r = t.try_finalize(&loaded(3), &p, Some(packing(regions, vec![2, 0, 1])));
    match r {
        Ok(Finalize::Published(released)) => assert_eq!(released, handles(3)),
        _ => panic!("expected publication"),
    }
    assert!(t.is_ready());
    assert_eq!(only_until_ready(&t), ShouldRun::No);
    assert_eq!(t.lookup_table().len(), 3);
    let g = t.lookup("grass").unwrap();
    let w = t.lookup("water").unwrap();
    let s = t.lookup("stone").unwrap();
    assert_eq!((g, w, s), (2, 0, 1));
    assert!(g != w && w != s && g != s);
    assert_eq!(t.lookup("dirt"), None);
    assert_eq!(t.texture_atlas().handle, 7);
    assert_eq!(t.texture_atlas().regions.len(), 3);
}

#[test]
fn finalize_after_publication_changes_nothing() {
    let mut t = Textures::new();
    t.begin_load(handles(1));
    let p = paths(&["textures/grass.png"]);
    let r = t.try_finalize(&loaded(1), &p, Some(packing(vec![rect(0, 0, 8, 8)], vec![0])));
    assert!(matches!(r, Ok(Finalize::Published(_))));
    let again = t.try_finalize(&loaded(1), &p, Some(packing(vec![rect(0, 0, 8, 8)], vec![0])));
    assert!(matches!(again, Ok(Finalize::Skipped)));
    assert!(t.is_ready());
    assert_eq!(t.lookup_table().len(), 1);
    assert_eq!(t.lookup("grass"), Some(0));
}

#[test]
fn duplicate_names_are_reported() {
    let mut t = Textures::new();
    t.begin_load(handles(2));
    let p = paths(&["dir1/x.png", "dir2/x.png"]);
    let regions = vec![rect(0, 0, 8, 8), rect(8, 0, 8, 8)];
    let r = t.try_finalize(&loaded(2), &p, Some(packing(regions, vec![0, 1])));
    match r {
        Err(AtlasBuildError::DuplicateName(n)) => assert_eq!(n, "x"),
        _ => panic!("expected a duplicate name"),
    }
    assert!(!t.is_ready());
    assert_unpublished(&t);
}

#[test]
fn first_duplicate_is_reported() {
    let mut t = Textures::new();
    t.begin_load(handles(5));
    let p = paths(&["a/one.png", "a/two.png", "b/two.png", "b/one.png", "c/two.png"]);
    let r = t.try_finalize(&loaded(5), &p, None);
    match r {
        Err(AtlasBuildError::DuplicateName(n)) => assert_eq!(n, "two"),
        _ => panic!("expected a duplicate name"),
    }
}

#[test]
fn failed_load_is_reported_by_name() {
    let mut t = Textures::new();
    t.begin_load(handles(3));
    let states = vec![LoadState::Loading, LoadState::Failed, LoadState::Failed];
    let p = paths(&["textures/grass.png", "textures/water.png", "textures/stone.png"]);
    let r = t.try_finalize(&states, &p, None);
    match r {
        Err(AtlasBuildError::AssetLoadFailed(n)) => assert_eq!(n, "water"),
        _ => panic!("expected a load failure"),
    }
    assert!(!t.is_ready());
    assert_unpublished(&t);
}

#[test]
fn missing_packing_is_reported() {
    let mut t = Textures::new();
    t.begin_load(handles(2));
    let p = paths(&["textures/grass.png", "textures/water.png"]);
    let r = t.try_finalize(&loaded(2), &p, None);
    assert!(matches!(r, Err(AtlasBuildError::PackingFailed)));
    assert!(!t.is_ready());
    assert_unpublished(&t);
}

#[test]
fn packing_with_shared_region_is_reported() {
    let mut t = Textures::new();
    t.begin_load(handles(2));
    let p = paths(&["textures/grass.png", "textures/water.png"]);
    let regions = vec![rect(0, 0, 8, 8), rect(8, 0, 8, 8)];
    let r = t.try_finalize(&loaded(2), &p, Some(packing(regions, vec![1, 1])));
    assert!(matches!(r, Err(AtlasBuildError::PackingFailed)));
    assert!(!t.is_ready());
    assert_unpublished(&t);
}

#[test]
fn empty_folder_publishes_empty_table() {
    let mut t = Textures::new();
    t.begin_load(vec![]);
    let r = t.try_finalize(&vec![], &vec![], Some(packing(vec![], vec![])));
    match r {
        Ok(Finalize::Published(released)) => assert!(released.is_empty()),
        _ => panic!("expected publication"),
    }
    assert!(t.is_ready());
    assert!(t.lookup_table().is_empty());
}

#[test]
fn names_are_derived_in_order() {
    let p = paths(&["textures/grass.png", "x/a.b.png", "water"]);
    assert_eq!(derive_names(&p), vec!["grass", "a.b", "water"]);
}

#[test]
fn first_duplicate_positions() {
    let names = paths(&["a", "b", "c", "b", "a"]);
    assert_eq!(first_duplicate(&names), Some(3));
    assert_eq!(first_duplicate(&paths(&["a", "b", "c"])), None);
    assert_eq!(first_duplicate(&paths(&[])), None);
}

#[test]
fn packing_checks() {
    let regions = vec![rect(0, 0, 8, 8), rect(8, 0, 8, 8), rect(16, 0, 8, 8)];
    assert!(check_packing(&packing(regions.clone(), vec![2, 0, 1]), 3));
    assert!(!check_packing(&packing(regions.clone(), vec![0, 1]), 3));
    assert!(!check_packing(&packing(regions.clone(), vec![0, 1, 3]), 3));
    assert!(!check_packing(&packing(regions, vec![0, 2, 0]), 3));
}

#[test]
fn overlapping_regions_fail_packing() {
    let mut t = Textures::new();
    t.begin_load(handles(2));
    let p = paths(&["textures/grass.png", "textures/water.png"]);
    let regions = vec![rect(0, 0, 16, 16), rect(8, 8, 16, 16)];
    let r = t.try_finalize(&loaded(2), &p, Some(packing(regions, vec![0, 1])));
    assert!(matches!(r, Err(AtlasBuildError::PackingFailed)));
    assert_unpublished(&t);
}

#[test]
fn layout_checks() {
    let atlas = |regions: Vec<Rect>| Atlas { handle: 1, width: 32, height: 16, regions };
    assert!(check_layout(&atlas(vec![])));
    assert!(check_layout(&atlas(vec![rect(0, 0, 16, 16), rect(16, 0, 16, 16)])));
    assert!(!check_layout(&atlas(vec![rect(0, 0, 16, 16), rect(15, 0, 16, 16)])));
    assert!(!check_layout(&atlas(vec![rect(20, 0, 16, 16)])));
    assert!(!check_layout(&atlas(vec![rect(0, 8, 16, 16)])));
    assert!(!check_layout(&atlas(vec![rect(4, 4, 0, 8)])));
}
