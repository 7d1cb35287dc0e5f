use bugs::daemon::{daemon_port, prepare_chat, register_daemon_providers, DEFAULT_DAEMON_PORT};
use bugs::models::{ProviderKind, ProviderRegistry, ProviderSpec, Role};

fn env(pairs: &[(&str, &str)]) -> Vec<(String, String)> {
    pairs.iter().map(|(k, v)| (k.to_string(), v.to_string())).collect()
}

#[test]
fn daemon_registers_its_providers() {
    let mut reg = ProviderRegistry::new();
    register_daemon_providers(&mut reg, &env(&[("ZHIPU_API_KEY", "z"), ("ANTHROPIC_API_KEY", "a")]));
    assert_eq!(reg.list(), vec!["anthropic", "zhipu", "ollama"]);
    assert_eq!(reg.get(0).base_url, "https://api.anthropic.com");
    assert_eq!(reg.get(2).base_url, "http://localhost:11434/v1");
}

#[test]
fn daemon_port_choice() {
    assert_eq!(daemon_port(&env(&[])), 8742);
    assert_eq!(DEFAULT_DAEMON_PORT, 8742);
    assert_eq!(daemon_port(&env(&[("BUGS_PORT", "9000")])), 9000);
    assert_eq!(daemon_port(&env(&[("BUGS_PORT", "70000")])), 8742);
    assert_eq!(daemon_port(&env(&[("BUGS_PORT", "x")])), 8742);
}

#[test]
fn chat_requests() {
    let mut reg = ProviderRegistry::new();
    reg.register(ProviderSpec { name: "ds".into(), base_url: "b".into(), api_key: "k".into(), kind: ProviderKind::DeepSeek(bugs::models::DeepSeekApiFormat::OpenAi) });
    let msgs = vec![("system".to_string(), "s".to_string()), ("tool".to_string(), "t".to_string())];
    match prepare_chat(&reg, None, &msgs) {
        Err(e) => assert_eq!(e, "找不到模型: gpt-4o-mini"),
        Ok(_) => panic!("no provider serves gpt-4o-mini"),
    }
    let call = prepare_chat(&reg, Some("deepseek-chat".into()), &msgs).unwrap();
    assert_eq!(call.provider, 0);
    assert_eq!(call.model, "deepseek-chat");
    assert_eq!(call.messages[0].role, Role::System);
    assert_eq!(call.messages[1].role, Role::User);
    assert_eq!(call.messages[1].content, "t");
}
