use weekend_tracer::Scene;

#[test]
fn scene_keeps_insertion_order() {
    let scene = Scene::new(vec![3, 1, 2]);
    assert_eq!(scene.len(), 3);
    assert!(!scene.is_empty());
    assert_eq!(scene.hitables(), &vec![3, 1, 2]);
}

#[test]
fn empty_scene() {
    let scene: Scene<u8> = Scene::new(Vec::new());
    assert!(scene.is_empty());
    assert_eq!(scene.len(), 0);
}
