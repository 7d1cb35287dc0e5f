use bugs::web::{api_prefix, listen_addr, proxy_url, UNREACHABLE_BODY};

#[test]
fn proxy_targets() {
    let p = api_prefix(8742);
    assert_eq!(p, "http://127.0.0.1:8742/api");
    assert_eq!(proxy_url(&p, "scenes/current"), "http://127.0.0.1:8742/api/scenes/current");
    assert_eq!(listen_addr(3000), "127.0.0.1:3000");
    assert_eq!(UNREACHABLE_BODY, "{\"error\":\"unreachable\"}");
}
