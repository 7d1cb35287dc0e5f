use bugs::weixin::{bind_answer, bind_url, parse_port, verify_callback, verify_signature, WeixinModule, WxReply};
use sha1::{Digest, Sha1};

#[test]
fn verify_signature_works() {
    let mut items = vec!["test", "1409304348", "xxxxxx"];
    items.sort();
    let sorted = items.concat();
    let mut h = Sha1::new();
    h.update(sorted.as_bytes());
    let sig = hex::encode(h.finalize());
    assert!(verify_signature("test", "1409304348", "xxxxxx", &sig));
}

#[test]
fn verify_signature_rejects_wrong() {
    assert!(!verify_signature("test", "1409304348", "xxxxxx", "0000"));
    // sha1("abc") for the parts "a", "b", "c" in any order
    let sig = "a9993e364706816aba3e25717850c26c9cd0d89d";
    assert!(verify_signature("c", "a", "b", sig));
    assert!(verify_signature("b", "c", "a", sig));
}

#[test]
fn reply_xml() {
    let mut r = WxReply::text("bot".into(), "user".into(), "hi".into());
    assert_eq!(r.msg_type, "text");
    assert_eq!(r.to_user, "user");
    r.create_time = 1700000000;
    assert_eq!(
        r.to_xml(),
        "<xml><ToUserName><![CDATA[user]]></ToUserName><FromUserName><![CDATA[bot]]></FromUserName><CreateTime>1700000000</CreateTime><MsgType><![CDATA[text]]></MsgType><Content><![CDATA[hi]]></Content></xml>"
    );
}

#[test]
fn module_settings() {
    let m = WeixinModule::new(None, None);
    assert_eq!(m.port, 8787);
    assert!(!m.bound);
    let m = WeixinModule::new(Some("tok".into()), Some("9000".into()));
    assert_eq!(m.port, 9000);
    assert!(m.bound);
    let m = WeixinModule::new(Some(String::new()), Some("70000".into()));
    assert_eq!(m.port, 8787);
    assert!(!m.bound);
}

#[test]
fn port_parsing() {
    assert_eq!(parse_port("+80"), Some(80));
    assert_eq!(parse_port("65535"), Some(65535));
    assert_eq!(parse_port("65536"), None);
    assert_eq!(parse_port(""), None);
    assert_eq!(parse_port("+"), None);
    assert_eq!(parse_port("8a"), None);
    assert_eq!(parse_port("007"), Some(7));
}

#[test]
fn callback_verification_and_binding() {
    let env = vec![("WEIXIN_TOKEN".to_string(), "tok".to_string())];
    let mut sorted = vec!["tok", "123", "n"];
    sorted.sort();
    let sig = hex::encode(Sha1::digest(sorted.concat().as_bytes()));
    let q = vec![
        ("signature".to_string(), sig),
        ("timestamp".to_string(), "123".to_string()),
        ("nonce".to_string(), "n".to_string()),
        ("echostr".to_string(), "hello".to_string()),
    ];
    assert_eq!(verify_callback(&env, &q), "hello");
    assert_eq!(verify_callback(&vec![], &q), "fail");
    assert_eq!(bind_answer(&vec![("token".to_string(), "t1".to_string())]), ("✅ 绑定成功！可以关闭此页面。", Some("t1".to_string())));
    assert_eq!(bind_answer(&vec![]), ("❌ 缺少 token 参数", None));
    assert_eq!(bind_url(8787), "http://localhost:8787/wechat/bind");
}

#[test]
fn signature_ignores_parameter_order() {
    let mut items = vec!["tok", "1409304348", "nonce"];
    items.sort();
    let sig = hex::encode(Sha1::digest(items.concat().as_bytes()));
    assert!(verify_signature("tok", "1409304348", "nonce", &sig));
    assert!(verify_signature("1409304348", "tok", "nonce", &sig));
    assert!(verify_signature("nonce", "1409304348", "tok", &sig));
    assert!(verify_signature("tok", "nonce", "1409304348", &sig));
}

#[test]
fn replies_carry_their_time() {
    let r = WxReply::text_at("bot".into(), "user".into(), "hi".into(), 42);
    assert_eq!((r.create_time, r.msg_type.as_str(), r.content.as_str()), (42, "text", "hi"));
    let before = std::time::SystemTime::now().duration_since(std::time::UNIX_EPOCH).unwrap().as_secs();
    let now = WxReply::text("bot".into(), "user".into(), "hi".into());
    assert!(now.create_time >= before);
}
