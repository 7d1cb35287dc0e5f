use bugs::browser_manager::BrowserManager;
use bugs::html::strip_html;

#[test]
fn strip_html_works() {
    assert!(strip_html("<p>Hello</p>").contains("Hello"));
}

#[test]
fn strip_html_exact() {
    assert_eq!(strip_html("<p>Hello</p>"), "Hello");
    assert_eq!(strip_html("  <div> a \n\t b </div><br/>c  "), "a b c");
    assert_eq!(strip_html("x<y>z"), "xz");
    assert_eq!(strip_html("a>b"), "ab");
    assert_eq!(strip_html(""), "");
    assert_eq!(strip_html("<only tags>"), "");
}

#[test]
fn runtime_browser_manager() {
    let mut m = BrowserManager::default();
    assert!(!m.is_available());
    assert_eq!(m.search("rust").unwrap_err(), "浏览器模块未初始化，请确保 Chromium 已安装");
    m.init_headless();
    assert!(m.is_available());
    let p = m.headless.as_ref().unwrap();
    assert_eq!((p.contexts.len(), p.max_size, p.max_tabs_per_context), (0, 16, 8));
    assert_eq!(p.idle_timeout, std::time::Duration::from_secs(30));
    assert!(m.headful.is_none());
    assert_eq!(m.search("rust").unwrap_err(), "浏览器搜索功能待实现");
}
