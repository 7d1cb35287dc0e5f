use bugs::hotreload::ConfigWatcher;

#[test]
fn watcher_creation() {
    let mut w = ConfigWatcher::new(std::path::PathBuf::from("/tmp/test.json"));
    assert!(!w.poll_due());
}

#[test]
fn watcher_reports_changes_once() {
    let mut w = ConfigWatcher::new(std::path::PathBuf::from("/tmp/test.json"));
    assert!(!w.observe(None));
    assert!(w.observe(Some((10, 5))));
    assert!(!w.observe(Some((10, 5))));
    assert!(w.observe(Some((11, 0))));
    assert!(w.observe(None));
}
