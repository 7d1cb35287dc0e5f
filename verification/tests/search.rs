use bugs::search::{SearchEngine, SearchRegistry};

#[test]
fn default_is_bing() {
    let reg = SearchRegistry::new();
    assert_eq!(reg.default_engine().name, "Bing");
}

#[test]
fn switch_to_google() {
    let mut reg = SearchRegistry::new();
    assert!(reg.set_default("google").is_ok());
    assert_eq!(reg.default_engine().name, "Google");
}

#[test]
fn build_bing_url() {
    let reg = SearchRegistry::new();
    let url = reg.build_url("bing", "rust async").unwrap();
    assert!(url.contains("bing.com"));
    assert!(url.contains("rust+async"));
}

#[test]
fn unknown_engine_returns_none() {
    let reg = SearchRegistry::new();
    assert!(reg.get("nonexistent").is_none());
}

#[test]
fn register_custom_engine() {
    let mut reg = SearchRegistry::new();
    reg.register(
        "custom".into(),
        SearchEngine {
            name: "Custom".into(),
            url_template: "https://example.com?q={query}".into(),
            result_extract_js: "",
        },
    );
    assert!(reg.get("custom").is_some());
}

#[test]
fn build_url_exact() {
    let reg = SearchRegistry::new();
    assert_eq!(
        reg.build_url("baidu", "a b  c").unwrap(),
        "https://www.baidu.com/s?wd=a+b++c"
    );
    assert_eq!(reg.build_url("nonexistent", "x"), None);
}

#[test]
fn build_url_replaces_every_placeholder() {
    let mut reg = SearchRegistry::new();
    reg.register(
        "twice".into(),
        SearchEngine {
            name: "Twice".into(),
            url_template: "{query}/{query}".into(),
            result_extract_js: "",
        },
    );
    assert_eq!(reg.build_url("twice", "x y").unwrap(), "x+y/x+y");
}

#[test]
fn set_default_unknown_is_refused() {
    let mut reg = SearchRegistry::new();
    let err = reg.set_default("nope").unwrap_err();
    assert_eq!(err, "未知搜索引擎: nope");
    assert_eq!(reg.default_engine().name, "Bing");
}

#[test]
fn list_holds_builtin_ids() {
    let reg = SearchRegistry::new();
    let ids = reg.list();
    assert_eq!(ids, vec!["bing", "google", "baidu", "duckduckgo", "bing-cn", "searxng"]);
}

#[test]
fn register_replaces_same_id() {
    let mut reg = SearchRegistry::new();
    reg.register(
        "bing".into(),
        SearchEngine {
            name: "Other".into(),
            url_template: "https://other/{query}".into(),
            result_extract_js: "",
        },
    );
    assert_eq!(reg.list().len(), 6);
    assert_eq!(reg.default_engine().name, "Other");
}
