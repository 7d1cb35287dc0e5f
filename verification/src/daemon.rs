//! Decisions of the HTTP daemon that serves every front end: which
//! providers it registers, which port it listens on, and how a chat
//! request is turned into a call.
use vstd::prelude::*;
use crate::envvars::{env_lookup, env_or, lookup, lookup_or};
use crate::models::{
    key_entry, kind_supports, provider_view, provider_views, register_if_set, role_from_name,
    role_of_name, spec_of, DeepSeekApiFormat, Message, ProviderKind, ProviderRegistry, ProviderView,
};
use crate::weixin::{parse_port, parse_u16_spec};

verus! {

/// The port the daemon listens on unless `BUGS_PORT` names another.
pub const DEFAULT_DAEMON_PORT: u16 = 8742;

/// The providers the daemon registers: OpenAI and Anthropic (base URLs
/// overridable), DeepSeek through both APIs, Groq, Moonshot, Zhipu, and
/// Ollama at its default address, always.
pub open spec fn daemon_plan(env: Seq<(String, String)>) -> Seq<ProviderView> {
    key_entry(env, "OPENAI_API_KEY"@, "openai"@,
        env_or(env, "OPENAI_BASE_URL"@, "https://api.openai.com/v1"@), ProviderKind::OpenAi)
    + key_entry(env, "ANTHROPIC_API_KEY"@, "anthropic"@,
        env_or(env, "ANTHROPIC_BASE_URL"@, "https://api.anthropic.com"@), ProviderKind::Anthropic)
    + key_entry(env, "DEEPSEEK_API_KEY"@, "deepseek"@, "https://api.deepseek.com"@,
        ProviderKind::DeepSeek(DeepSeekApiFormat::OpenAi))
    + key_entry(env, "DEEPSEEK_API_KEY"@, "deepseek"@, "https://api.deepseek.com/anthropic"@,
        ProviderKind::DeepSeek(DeepSeekApiFormat::Anthropic))
    + key_entry(env, "GROQ_API_KEY"@, "groq"@, "https://api.groq.com/openai/v1"@, ProviderKind::OpenAi)
    + key_entry(env, "MOONSHOT_API_KEY"@, "moonshot"@, "https://api.moonshot.cn/v1"@, ProviderKind::Moonshot)
    + key_entry(env, "ZHIPU_API_KEY"@, "zhipu"@, "https://open.bigmodel.cn/api/paas/v4"@, ProviderKind::Zhipu)
    + seq![("ollama"@, "http://localhost:11434/v1"@, env_or(env, "OLLAMA_API_KEY"@, ""@), ProviderKind::OpenAi)]
}

/// The OpenAI entry of the daemon's plan: where `OPENAI_API_KEY` is set,
/// the plan starts with the "openai" provider, with that key, at the base
/// URL that `OPENAI_BASE_URL` gives, or at the public endpoint where that
/// is unset; where the key is unset, no "openai" entry comes first.
pub proof fn lemma_daemon_openai_entry(env: Seq<(String, String)>)
    ensures
        env_lookup(env, "OPENAI_API_KEY"@) is Some ==> daemon_plan(env)[0] == (
            "openai"@,
            env_or(env, "OPENAI_BASE_URL"@, "https://api.openai.com/v1"@),
            env_lookup(env, "OPENAI_API_KEY"@)->0,
            ProviderKind::OpenAi,
        ),
        env_lookup(env, "OPENAI_API_KEY"@) is Some && env_lookup(env, "OPENAI_BASE_URL"@) is Some
            ==> daemon_plan(env)[0].1 == env_lookup(env, "OPENAI_BASE_URL"@)->0,
        env_lookup(env, "OPENAI_API_KEY"@) is Some && env_lookup(env, "OPENAI_BASE_URL"@) is None
            ==> daemon_plan(env)[0].1 == "https://api.openai.com/v1"@,
{
}

/// The Anthropic entry of the daemon's plan: where `ANTHROPIC_API_KEY` is
/// set, it follows the OpenAI entry (if any), with that key, at the base URL
/// that `ANTHROPIC_BASE_URL` gives, or at the public endpoint where that is
/// unset.
pub proof fn lemma_daemon_anthropic_entry(env: Seq<(String, String)>)
    ensures
        env_lookup(env, "ANTHROPIC_API_KEY"@) is Some ==> daemon_plan(env)[key_entry(
            env,
            "OPENAI_API_KEY"@,
            "openai"@,
            env_or(env, "OPENAI_BASE_URL"@, "https://api.openai.com/v1"@),
            ProviderKind::OpenAi,
        ).len() as int] == (
            "anthropic"@,
            env_or(env, "ANTHROPIC_BASE_URL"@, "https://api.anthropic.com"@),
            env_lookup(env, "ANTHROPIC_API_KEY"@)->0,
            ProviderKind::Anthropic,
        ),
{
}

/// The daemon always registers Ollama last, at its local address, with the
/// key that `OLLAMA_API_KEY` gives, or none.
pub proof fn lemma_daemon_ollama_last(env: Seq<(String, String)>)
    ensures
        daemon_plan(env).len() > 0,
        daemon_plan(env).last() == (
            "ollama"@,
            "http://localhost:11434/v1"@,
            env_or(env, "OLLAMA_API_KEY"@, ""@),
            ProviderKind::OpenAi,
        ),
{
}

/// Registers the daemon's providers.
pub fn register_daemon_providers(reg: &mut ProviderRegistry, env: &Vec<(String, String)>)
    ensures
        provider_views(final(reg).entries()) == provider_views(old(reg).entries()) + daemon_plan(env@),
        env_lookup(env@, "OPENAI_API_KEY"@) is Some ==> final(reg).entries()[old(reg).entries().len() as int].name@
            == "openai"@ && final(reg).entries()[old(reg).entries().len() as int].api_key@ == env_lookup(
            env@,
            "OPENAI_API_KEY"@,
        )->0 && final(reg).entries()[old(reg).entries().len() as int].base_url@ == env_or(
            env@,
            "OPENAI_BASE_URL"@,
            "https://api.openai.com/v1"@,
        ),
{
    let ghost start = provider_views(reg.entries());
    let openai_base = lookup_or(env, "OPENAI_BASE_URL", "https://api.openai.com/v1");
    register_if_set(reg, env, "OPENAI_API_KEY", "openai", openai_base, ProviderKind::OpenAi);
    let anthropic_base = lookup_or(env, "ANTHROPIC_BASE_URL", "https://api.anthropic.com");
    register_if_set(reg, env, "ANTHROPIC_API_KEY", "anthropic", anthropic_base, ProviderKind::Anthropic);
    register_if_set(reg, env, "DEEPSEEK_API_KEY", "deepseek", "https://api.deepseek.com".to_owned(),
        ProviderKind::DeepSeek(DeepSeekApiFormat::OpenAi));
    register_if_set(reg, env, "DEEPSEEK_API_KEY", "deepseek", "https://api.deepseek.com/anthropic".to_owned(),
        ProviderKind::DeepSeek(DeepSeekApiFormat::Anthropic));
    register_if_set(reg, env, "GROQ_API_KEY", "groq", "https://api.groq.com/openai/v1".to_owned(),
        ProviderKind::OpenAi);
    register_if_set(reg, env, "MOONSHOT_API_KEY", "moonshot", "https://api.moonshot.cn/v1".to_owned(),
        ProviderKind::Moonshot);
    register_if_set(reg, env, "ZHIPU_API_KEY", "zhipu", "https://open.bigmodel.cn/api/paas/v4".to_owned(),
        ProviderKind::Zhipu);
    let ghost before_ollama = provider_views(reg.entries());
    let key = lookup_or(env, "OLLAMA_API_KEY", "");
    let p = spec_of("ollama", "http://localhost:11434/v1".to_owned(), key, ProviderKind::OpenAi);
    reg.register(p);
    assert(provider_views(reg.entries()) =~= before_ollama.push(provider_view(p)));
    assert(provider_views(reg.entries()) =~= start + daemon_plan(env@));
    proof {
        lemma_daemon_openai_entry(env@);
        let n = start.len() as int;
        if env_lookup(env@, "OPENAI_API_KEY"@) is Some {
            assert(provider_views(reg.entries())[n] == daemon_plan(env@)[0]);
            assert(provider_views(reg.entries())[n] == provider_view(reg.entries()[n]));
        }
    }
}

/// The port: `BUGS_PORT` when it is set and parses as a port number, else
/// the default.
pub open spec fn daemon_port_of(env: Seq<(String, String)>) -> u16 {
    match env_lookup(env, "BUGS_PORT"@) {
        Some(p) => match parse_u16_spec(p) {
            Some(n) => n,
            None => DEFAULT_DAEMON_PORT,
        },
        None => DEFAULT_DAEMON_PORT,
    }
}

/// Chooses the daemon's port.
pub fn daemon_port(env: &Vec<(String, String)>) -> (r: u16)
    ensures
        r == daemon_port_of(env@),
{
    match lookup(env, "BUGS_PORT") {
        Some(p) => match parse_port(p.as_str()) {
            Some(n) => n,
            None => DEFAULT_DAEMON_PORT,
        },
        None => DEFAULT_DAEMON_PORT,
    }
}

/// A chat request made ready for a provider.
pub struct ChatCall {
    /// The position of the chosen provider in the registry.
    pub provider: usize,
    pub model: String,
    pub messages: Vec<Message>,
}

/// The model a chat request names, `gpt-4o-mini` when it names none.
pub open spec fn requested_model(model: Option<Seq<char>>) -> Seq<char> {
    match model {
        Some(m) => m,
        None => "gpt-4o-mini"@,
    }
}

/// The error answered when no provider serves the model.
pub open spec fn no_model_message(model: Seq<char>) -> Seq<char> {
    "找不到模型: "@ + model
}

/// Turns a chat request (model, and messages as role name and text) into a
/// call: the first provider that serves the model, and the messages with
/// their roles read. Fails when no provider serves the model.
pub fn prepare_chat(reg: &ProviderRegistry, model: Option<String>, messages: &Vec<(String, String)>) -> (r: Result<ChatCall, String>)
    ensures
        match r {
            Ok(c) => {
                let m = requested_model(match model { Some(x) => Some(x@), None => None });
                &&& c.model@ == m
                &&& c.provider < reg.entries().len()
                &&& kind_supports(reg.entries()[c.provider as int].kind, m)
                &&& forall|j: int| 0 <= j < c.provider ==> !kind_supports(reg.entries()[j].kind, m)
                &&& c.messages@.len() == messages@.len()
                &&& forall|k: int| 0 <= k < messages@.len() ==> c.messages@[k].role == role_of_name(
                    #[trigger] messages@[k].0@) && c.messages@[k].content@ == messages@[k].1@
            },
            Err(e) => {
                let m = requested_model(match model { Some(x) => Some(x@), None => None });
                &&& forall|i: int| 0 <= i < reg.entries().len() ==> !kind_supports(reg.entries()[i].kind, m)
                &&& e@ == no_model_message(m)
            },
        },
{
    let m = match model {
        Some(x) => x,
        None => "gpt-4o-mini".to_owned(),
    };
    let idx = match reg.find_index(m.as_str()) {
        Some(i) => i,
        None => {
            return Err(crate::text::concat("找不到模型: ", m.as_str()));
        },
    };
    let mut out: Vec<Message> = Vec::new();
    let mut k: usize = 0;
    while k < messages.len()
        invariant
            k <= messages@.len(),
            out@.len() == k,
            forall|j: int| 0 <= j < k ==> out@[j].role == role_of_name(#[trigger] messages@[j].0@)
                && out@[j].content@ == messages@[j].1@,
        decreases messages@.len() - k,
    {
        let role = role_from_name(messages[k].0.as_str());
        out.push(Message { role, content: messages[k].1.clone() });
        k = k + 1;
    }
    Ok(ChatCall { provider: idx, model: m, messages: out })
}

} // verus!
