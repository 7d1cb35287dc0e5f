use bugs::models::{
    effort_name, endpoint_url, minimax_authorization, role_from_name, role_name, role_to, split_system,
    ApiType, DeepSeekApiFormat, Message, MinimaxAuthMode, ModelError, ModelsModule, ProviderKind,
    ProviderRegistry, ProviderSpec, ReasoningEffort, Role,
};

fn env(pairs: &[(&str, &str)]) -> Vec<(String, String)> {
    pairs.iter().map(|(k, v)| (k.to_string(), v.to_string())).collect()
}

fn spec(name: &str, kind: ProviderKind) -> ProviderSpec {
    ProviderSpec { name: name.into(), base_url: "http://x".into(), api_key: "k".into(), kind }
}

#[test]
fn registry_finds_provider() {
    let mut reg = ProviderRegistry::new();
    reg.register(spec("mock", ProviderKind::Stepfun));
    assert!(reg.find("step-1").is_some());
    assert!(reg.find("unknown").is_none());
}

#[test]
fn find_takes_first_supporting_provider() {
    let mut reg = ProviderRegistry::new();
    reg.register(spec("ds", ProviderKind::DeepSeek(DeepSeekApiFormat::OpenAi)));
    reg.register(spec("any", ProviderKind::OpenAi));
    reg.register(spec("any2", ProviderKind::Anthropic));
    assert_eq!(reg.find("deepseek-chat").unwrap().name, "ds");
    assert_eq!(reg.find("gpt-4o").unwrap().name, "any");
    assert_eq!(reg.find_index("gpt-4o"), Some(1));
    assert_eq!(reg.list(), vec!["ds", "any", "any2"]);
    assert!(!reg.is_empty());
    assert!(ProviderRegistry::new().is_empty());
}

#[test]
fn vendor_model_prefixes() {
    assert!(spec("m", ProviderKind::Moonshot).supports("kimi-k2"));
    assert!(spec("m", ProviderKind::Moonshot).supports("moonshot-v1"));
    assert!(!spec("m", ProviderKind::Moonshot).supports("gpt"));
    assert!(spec("z", ProviderKind::Zhipu).supports("chatglm3"));
    assert!(spec("q", ProviderKind::Qianfan).supports("ernie-4"));
    assert!(spec("a", ProviderKind::Alibaba).supports("qwq-32b"));
    assert!(spec("x", ProviderKind::Minimax(MinimaxAuthMode::Token)).supports("MiniMax-M1"));
    assert!(!spec("x", ProviderKind::Minimax(MinimaxAuthMode::Token)).supports("mini"));
    assert_eq!(spec("d", ProviderKind::DeepSeek(DeepSeekApiFormat::Anthropic)).api_type(), ApiType::Anthropic);
    assert_eq!(spec("d", ProviderKind::DeepSeek(DeepSeekApiFormat::OpenAi)).api_type(), ApiType::OpenAi);
    assert_eq!(spec("o", ProviderKind::OpenAi).api_type(), ApiType::OpenAiCompat);
}

#[test]
fn auto_register_with_empty_environment_has_only_ollama() {
    let mut m = ModelsModule::new();
    m.auto_register(&env(&[]));
    assert_eq!(m.registry.list(), vec!["ollama"]);
    let p = m.registry.get(0);
    assert_eq!(p.base_url, "http://localhost:11434/v1");
    assert_eq!(p.api_key, "");
}

#[test]
fn auto_register_order_and_endpoints() {
    let mut m = ModelsModule::new();
    m.auto_register(&env(&[
        ("VLLM_BASE_URL", "http://vllm"),
        ("DEEPSEEK_API_KEY", "dk"),
        ("OPENAI_API_KEY", "ok"),
        ("OPENAI_BASE_URL", "http://proxy/v1"),
        ("GROQ_API_KEY", "gk"),
        ("MINIMAX_CN_API_KEY", "mk"),
        ("OLLAMA_BASE_URL", "http://ollama:1"),
        ("OLLAMA_API_KEY", "olk"),
    ]));
    assert_eq!(
        m.registry.list(),
        vec!["openai", "groq", "deepseek", "deepseek", "minimax-cn", "ollama", "vllm"]
    );
    let openai = m.registry.get(0);
    assert_eq!(openai.base_url, "http://proxy/v1");
    assert_eq!(openai.api_key, "ok");
    assert_eq!(m.registry.get(1).base_url, "https://api.groq.com/openai/v1");
    assert_eq!(m.registry.get(3).base_url, "https://api.deepseek.com/anthropic");
    let mm = m.registry.get(4);
    assert_eq!(mm.base_url, "https://api.minimax.chat/v1");
    assert_eq!(mm.kind, ProviderKind::Minimax(MinimaxAuthMode::Auth));
    assert_eq!(m.registry.get(5).base_url, "http://ollama:1");
    assert_eq!(m.registry.get(5).api_key, "olk");
    assert_eq!(m.registry.get(6).api_key, "");
}

#[test]
fn minimax_auth_modes() {
    let mut m = ModelsModule::new();
    m.auto_register(&env(&[("MINIMAX_API_KEY", "k1"), ("MINIMAX_AUTH_MODE", "auth")]));
    assert_eq!(m.registry.get(0).name, "minimax-intl");
    assert_eq!(m.registry.get(0).base_url, "https://api.minimax.io/v1");
    assert_eq!(m.registry.get(0).kind, ProviderKind::Minimax(MinimaxAuthMode::Auth));
    let mut m2 = ModelsModule::new();
    m2.auto_register(&env(&[("MINIMAX_API_KEY", "k1")]));
    assert_eq!(m2.registry.get(0).kind, ProviderKind::Minimax(MinimaxAuthMode::Token));
    assert_eq!(minimax_authorization(MinimaxAuthMode::Token, "abc"), "Bearer abc");
    assert_eq!(minimax_authorization(MinimaxAuthMode::Auth, "abc"), "abc");
}

#[test]
fn chat_endpoints_and_headers() {
    let mut p = spec("o", ProviderKind::OpenAi);
    p.base_url = "https://api.x.ai/v1//".into();
    assert_eq!(p.chat_url(), "https://api.x.ai/v1/chat/completions");
    assert_eq!(p.auth_headers(), vec![("Authorization".to_string(), "Bearer k".to_string())]);
    let a = spec("a", ProviderKind::Anthropic);
    assert_eq!(a.chat_url(), "http://x/messages");
    assert_eq!(
        a.auth_headers(),
        vec![
            ("x-api-key".to_string(), "k".to_string()),
            ("anthropic-version".to_string(), "2023-06-01".to_string())
        ]
    );
    let m = spec("m", ProviderKind::Minimax(MinimaxAuthMode::Auth));
    assert_eq!(m.auth_headers(), vec![("Authorization".to_string(), "k".to_string())]);
    assert_eq!(endpoint_url("http://a/", "/messages"), "http://a/messages");
}

#[test]
fn role_names() {
    assert_eq!(role_name(Role::System), "system");
    assert_eq!(role_to(Role::System), "user");
    assert_eq!(role_to(Role::Assistant), "assistant");
    assert_eq!(role_from_name("assistant"), Role::Assistant);
    assert_eq!(role_from_name("system"), Role::System);
    assert_eq!(role_from_name("whatever"), Role::User);
    assert_eq!(effort_name(ReasoningEffort::Max), "max");
}

#[test]
fn model_error_messages() {
    assert_eq!(ModelError::ConnectionFailed("x".into()).message(), "连接失败: x");
    assert_eq!(ModelError::ApiError("HTTP 500".into()).message(), "API 错误: HTTP 500");
    assert_eq!(ModelError::Timeout.message(), "超时");
    assert_eq!(ModelError::ModelUnavailable("无 Provider".into()).message(), "模型不可用: 无 Provider");
}

#[test]
fn anthropic_split_of_system_messages() {
    let msgs = vec![
        Message { role: Role::User, content: "hi".into() },
        Message { role: Role::System, content: "be brief".into() },
        Message { role: Role::Assistant, content: "ok".into() },
        Message { role: Role::System, content: "second".into() },
    ];
    let (system, rest) = split_system(&msgs);
    assert_eq!(system.as_deref(), Some("be brief"));
    assert_eq!(rest.len(), 2);
    assert_eq!(rest[0].content, "hi");
    assert_eq!(rest[1].role, Role::Assistant);
    let (none, all) = split_system(&vec![Message { role: Role::User, content: "u".into() }]);
    assert!(none.is_none());
    assert_eq!(all.len(), 1);
}
