use bugs::scene::{SceneManager, SceneSwitch};

#[test]
fn register_and_switch() {
    let mut mgr = SceneManager::new(0, "general".into());
    mgr.register("test".into(), vec!["/tmp".into()]);
    assert!(mgr.switch_by_name("test").is_some());
}

#[test]
fn create_default() {
    let mut mgr = SceneManager::new(0, "general".into());
    mgr.create_default();
    assert_eq!(mgr.list().len(), 1);
}

#[test]
fn debounce_prevents_rapid_switch() {
    let mut mgr = SceneManager::new(500, "general".into());
    let id = mgr.register("test".into(), vec!["/tmp".into()]);
    mgr.switch_by_name("test");
    assert_eq!(mgr.current(), Some(id));
}

#[test]
fn switching_loads_and_unloads() {
    let mut mgr = SceneManager::new(0, "general".into());
    let a = mgr.register("a".into(), vec!["/a".into()]);
    let b = mgr.register("b".into(), vec!["/b".into()]);
    assert_eq!((a, b), (1, 2));
    assert_eq!(mgr.switch_by_name("a"), Some(SceneSwitch { id: a, unload: None, load: Some(a) }));
    assert_eq!(mgr.switch_by_name("a"), Some(SceneSwitch { id: a, unload: None, load: None }));
    assert_eq!(mgr.switch_by_name("b"), Some(SceneSwitch { id: b, unload: Some(a), load: Some(b) }));
    assert_eq!(mgr.current_name().as_deref(), Some("b"));
    assert_eq!(mgr.switch_by_name("nope"), None);
    assert_eq!(mgr.current(), Some(b));
}

#[test]
fn detection_by_directory() {
    let mut mgr = SceneManager::new(0, "general".into());
    let a = mgr.register("proj".into(), vec!["/home/u/proj".into()]);
    assert_eq!(mgr.finish_detect("/home/u/proj/src", false), Some(SceneSwitch { id: a, unload: None, load: Some(a) }));
    assert_eq!(mgr.finish_detect("/home/u/projx", false), None);
    let sw = mgr.finish_detect("/home/u/other", true).unwrap();
    assert_eq!(sw.id, 2);
    assert_eq!(sw.unload, Some(a));
    assert_eq!(mgr.current_name().as_deref(), Some("other"));
    assert_eq!(mgr.list().len(), 2);
}

#[test]
fn directories_match_by_whole_components() {
    let mut m = SceneManager::new(0, "general".into());
    let id = m.register("t".into(), vec!["/tmp".into()]);
    assert_eq!(m.finish_detect("/tmpfoo", false), None);
    assert_eq!(m.current(), None);
    let sw = m.finish_detect("/tmp/a/b", false).unwrap();
    assert_eq!(sw.id, id);
    assert_eq!(m.current(), Some(id));
}
