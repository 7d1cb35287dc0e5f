//! Language-model providers as the runtime sees them: the messages of a
//! conversation, what a call returns, the errors of a call, the wire forms
//! the providers' HTTP APIs expect, and the registry that picks a provider
//! for a model name.
use vstd::prelude::*;
use crate::envvars::{env_lookup, env_or, lookup, lookup_or};
use crate::text::{chars_of, concat, has_prefix, str_eq, trim_end_char, trim_end_char_str};

verus! {

// ───────────────────────── conversation data ─────────────────────────

/// Who speaks a message.
#[derive(Debug, Clone, Copy, PartialEq, Eq, Structural)]
pub enum Role {
    System,
    User,
    Assistant,
}

/// One message of a conversation.
#[derive(Debug, Clone)]
pub struct Message {
    pub role: Role,
    pub content: String,
}

/// One piece of a streamed answer.
#[derive(Debug, Clone)]
pub struct StreamChunk {
    pub content: String,
    pub finish_reason: Option<String>,
}

/// The HTTP dialect a provider speaks.
#[derive(Debug, Clone, Copy, PartialEq, Eq, Structural)]
pub enum ApiType {
    /// `/v1/chat/completions` with a bearer token.
    OpenAi,
    /// `/v1/messages` with an `x-api-key` header.
    Anthropic,
    /// OpenAI-compatible under a non-standard base URL.
    OpenAiCompat,
}

/// A provider's thinking switch (`"enabled"` or `"disabled"`).
#[derive(Debug, Clone)]
pub struct ThinkingMode {
    pub mode: String,
}

/// How hard a reasoning model should think.
#[derive(Debug, Clone, Copy, PartialEq, Eq, Structural)]
pub enum ReasoningEffort {
    High,
    Max,
}

/// Token accounting of one call.
#[derive(Debug, Clone, Copy, PartialEq, Eq, Structural)]
pub struct Usage {
    pub prompt_tokens: u32,
    pub completion_tokens: u32,
    pub total_tokens: u32,
}

/// The answer of a non-streamed call.
#[derive(Debug, Clone)]
pub struct ChatResponse {
    pub content: String,
    pub reasoning_content: Option<String>,
    pub finish_reason: Option<String>,
    pub usage: Option<Usage>,
}

/// Why a call to a model failed.
#[derive(Debug)]
pub enum ModelError {
    ConnectionFailed(String),
    ApiError(String),
    Timeout,
    ModelUnavailable(String),
}

/// The text shown for an error.
pub open spec fn model_error_text(e: ModelError) -> Seq<char> {
    match e {
        ModelError::ConnectionFailed(s) => "连接失败: "@ + s@,
        ModelError::ApiError(s) => "API 错误: "@ + s@,
        ModelError::Timeout => "超时"@,
        ModelError::ModelUnavailable(s) => "模型不可用: "@ + s@,
    }
}

impl ModelError {
    /// The human-readable description of the error.
    pub fn message(&self) -> (r: String)
        ensures
            r@ == model_error_text(*self),
    {
        match self {
            ModelError::ConnectionFailed(s) => concat("连接失败: ", s.as_str()),
            ModelError::ApiError(s) => concat("API 错误: ", s.as_str()),
            ModelError::Timeout => "超时".to_owned(),
            ModelError::ModelUnavailable(s) => concat("模型不可用: ", s.as_str()),
        }
    }
}

// ───────────────────────── wire forms ─────────────────────────

/// The role's name in OpenAI-style request bodies.
pub open spec fn role_wire_name(r: Role) -> Seq<char> {
    match r {
        Role::System => "system"@,
        Role::User => "user"@,
        Role::Assistant => "assistant"@,
    }
}

/// The role's name in an OpenAI-style request body.
pub fn role_name(r: Role) -> (s: &'static str)
    ensures
        s@ == role_wire_name(r),
{
    match r {
        Role::System => "system",
        Role::User => "user",
        Role::Assistant => "assistant",
    }
}

/// The role's name in an Anthropic-style body, where a system message that
/// stays among the messages is sent as the user's.
pub open spec fn anthropic_role_name(r: Role) -> Seq<char> {
    match r {
        Role::System => "user"@,
        Role::User => "user"@,
        Role::Assistant => "assistant"@,
    }
}

/// The role's name in an Anthropic-style request body.
pub fn role_to(r: Role) -> (s: &'static str)
    ensures
        s@ == anthropic_role_name(r),
{
    match r {
        Role::User => "user",
        Role::Assistant => "assistant",
        Role::System => "user",
    }
}

/// The role that a role name received over the HTTP API stands for:
/// `"assistant"` and `"system"` name themselves, anything else is the user.
pub open spec fn role_of_name(name: Seq<char>) -> Role {
    if name == "assistant"@ {
        Role::Assistant
    } else if name == "system"@ {
        Role::System
    } else {
        Role::User
    }
}

/// Reads a role name received over the HTTP API.
pub fn role_from_name(name: &str) -> (r: Role)
    ensures
        r == role_of_name(name@),
{
    if str_eq(name, "assistant") {
        Role::Assistant
    } else if str_eq(name, "system") {
        Role::System
    } else {
        Role::User
    }
}

/// The effort's name in request bodies.
pub open spec fn effort_wire_name(e: ReasoningEffort) -> Seq<char> {
    match e {
        ReasoningEffort::High => "high"@,
        ReasoningEffort::Max => "max"@,
    }
}

/// The effort's name in a request body.
pub fn effort_name(e: ReasoningEffort) -> (s: &'static str)
    ensures
        s@ == effort_wire_name(e),
{
    match e {
        ReasoningEffort::High => "high",
        ReasoningEffort::Max => "max",
    }
}

/// The URL of `path` under `base`, whatever number of slashes `base` ends with.
pub open spec fn endpoint(base: Seq<char>, path: Seq<char>) -> Seq<char> {
    trim_end_char(base, '/') + path
}

/// Joins a base URL and an endpoint path such as `/chat/completions`.
pub fn endpoint_url(base: &str, path: &str) -> (r: String)
    ensures
        r@ == endpoint(base@, path@),
{
    let b = trim_end_char_str(base, '/');
    concat(b.as_str(), path)
}

/// A message as a (role, text) pair.
pub open spec fn msg_view(m: Message) -> (Role, Seq<char>) {
    (m.role, m.content@)
}

/// The messages that are not system messages, in order.
pub open spec fn without_system(s: Seq<(Role, Seq<char>)>) -> Seq<(Role, Seq<char>)>
    decreases s.len(),
{
    if s.len() == 0 {
        s
    } else if s.last().0 == Role::System {
        without_system(s.drop_last())
    } else {
        without_system(s.drop_last()).push(s.last())
    }
}

/// The text of the first system message, if there is one.
pub open spec fn first_system(s: Seq<(Role, Seq<char>)>) -> Option<Seq<char>>
    decreases s.len(),
{
    if s.len() == 0 {
        None
    } else if s[0].0 == Role::System {
        Some(s[0].1)
    } else {
        first_system(s.drop_first())
    }
}

/// Splits a conversation the way Anthropic-style APIs take it: the first
/// system message becomes the system prompt, and the other messages are
/// sent without any system message.
pub fn split_system(messages: &Vec<Message>) -> (r: (Option<String>, Vec<Message>))
    ensures
        match r.0 {
            Some(p) => first_system(messages@.map_values(|m: Message| msg_view(m))) == Some(p@),
            None => first_system(messages@.map_values(|m: Message| msg_view(m))) is None,
        },
        r.1@.map_values(|m: Message| msg_view(m)) == without_system(
            messages@.map_values(|m: Message| msg_view(m)),
        ),
{
    let ghost all = messages@.map_values(|m: Message| msg_view(m));
    let mut system: Option<String> = None;
    let mut rest: Vec<Message> = Vec::new();
    let mut i: usize = 0;
    while i < messages.len()
        invariant
            i <= messages@.len(),
            all == messages@.map_values(|m: Message| msg_view(m)),
            rest@.map_values(|m: Message| msg_view(m)) == without_system(all.take(i as int)),
            match system {
                Some(p) => first_system(all.take(i as int)) == Some(p@),
                None => first_system(all.take(i as int)) is None,
            },
        decreases messages@.len() - i,
    {
        proof {
            lemma_first_system_push(all.take(i as int), all[i as int]);
            assert(all.take(i + 1) =~= all.take(i as int).push(all[i as int]));
            assert(all.take(i + 1).drop_last() =~= all.take(i as int));
        }
        let m = &messages[i];
        if m.role == Role::System {
            if system.is_none() {
                system = Some(m.content.clone());
            }
        } else {
            rest.push(Message { role: m.role, content: m.content.clone() });
            assert(rest@.map_values(|m: Message| msg_view(m)) =~= without_system(all.take(i as int)).push(all[i as int]));
        }
        i = i + 1;
    }
    assert(all.take(messages@.len() as int) =~= all);
    (system, rest)
}

proof fn lemma_first_system_push(s: Seq<(Role, Seq<char>)>, x: (Role, Seq<char>))
    ensures
        first_system(s.push(x)) == (match first_system(s) {
            Some(p) => Some(p),
            None => if x.0 == Role::System { Some(x.1) } else { None },
        }),
    decreases s.len(),
{
    if s.len() == 0 {
        assert(s.push(x).drop_first() =~= s);
    } else {
        assert(s.push(x).drop_first() =~= s.drop_first().push(x));
        lemma_first_system_push(s.drop_first(), x);
    }
}

/// How a MiniMax key is presented.
#[derive(Debug, Clone, Copy, PartialEq, Eq, Structural)]
pub enum MinimaxAuthMode {
    /// `Authorization: Bearer <key>`.
    Token,
    /// `Authorization: <key>`.
    Auth,
}

/// The `Authorization` header value for a MiniMax key.
pub open spec fn minimax_auth_header(mode: MinimaxAuthMode, key: Seq<char>) -> Seq<char> {
    match mode {
        MinimaxAuthMode::Token => "Bearer "@ + key,
        MinimaxAuthMode::Auth => key,
    }
}

/// Computes the `Authorization` header value for a MiniMax key.
pub fn minimax_authorization(mode: MinimaxAuthMode, key: &str) -> (r: String)
    ensures
        r@ == minimax_auth_header(mode, key@),
{
    match mode {
        MinimaxAuthMode::Token => concat("Bearer ", key),
        MinimaxAuthMode::Auth => key.to_owned(),
    }
}

/// Which of its two APIs a DeepSeek provider calls.
#[derive(Debug, Clone, Copy, PartialEq, Eq, Structural)]
pub enum DeepSeekApiFormat {
    OpenAi,
    Anthropic,
}

/// The thinking mode sent for a Moonshot model: Kimi K2 models always get
/// one (the requested mode, else `"enabled"`); other models get none.
pub open spec fn moonshot_thinking_mode(model: Seq<char>, requested: Option<Seq<char>>) -> Option<Seq<char>> {
    if has_prefix(model, "kimi-k2"@) {
        match requested {
            Some(m) => Some(m),
            None => Some("enabled"@),
        }
    } else {
        None
    }
}

/// Chooses the thinking mode sent for a Moonshot model.
pub fn moonshot_thinking(model: &str, requested: &Option<ThinkingMode>) -> (r: Option<String>)
    ensures
        match r {
            Some(m) => moonshot_thinking_mode(model@, match requested { Some(t) => Some(t.mode@), None => None }) == Some(m@),
            None => moonshot_thinking_mode(model@, match requested { Some(t) => Some(t.mode@), None => None }) is None,
        },
{
    let mv = chars_of(model);
    let p = chars_of("kimi-k2");
    if crate::text::starts_with_chars(&mv, &p) {
        match requested {
            Some(t) => Some(t.mode.clone()),
            None => Some("enabled".to_owned()),
        }
    } else {
        None
    }
}

// ───────────────────────── providers and their registry ─────────────────────────

/// Which provider implementation serves a registration.
#[derive(Debug, Clone, Copy, PartialEq, Eq, Structural)]
pub enum ProviderKind {
    /// Any OpenAI-compatible endpoint.
    OpenAi,
    /// Any Anthropic-compatible endpoint.
    Anthropic,
    DeepSeek(DeepSeekApiFormat),
    Moonshot,
    Zhipu,
    Stepfun,
    Qianfan,
    Alibaba,
    Minimax(MinimaxAuthMode),
}

/// Whether a provider of this kind serves `model`: the generic OpenAI and
/// Anthropic providers serve every model, the vendor providers the model
/// names of their vendor.
pub open spec fn kind_supports(k: ProviderKind, m: Seq<char>) -> bool {
    match k {
        ProviderKind::OpenAi => true,
        ProviderKind::Anthropic => true,
        ProviderKind::DeepSeek(_) => has_prefix(m, "deepseek-"@),
        ProviderKind::Moonshot => has_prefix(m, "kimi-"@) || has_prefix(m, "moonshot-"@),
        ProviderKind::Zhipu => has_prefix(m, "glm-"@) || has_prefix(m, "chatglm"@),
        ProviderKind::Stepfun => has_prefix(m, "step-"@),
        ProviderKind::Qianfan => has_prefix(m, "ernie-"@) || has_prefix(m, "qianfan"@),
        ProviderKind::Alibaba => has_prefix(m, "qwen-"@) || has_prefix(m, "qwq-"@),
        ProviderKind::Minimax(_) => has_prefix(m, "abab"@) || has_prefix(m, "minimax"@)
            || has_prefix(m, "MiniMax"@),
    }
}

/// Every model name that starts with one of a vendor's prefixes is served
/// by that vendor's providers, and the generic providers serve every name.
pub proof fn lemma_vendor_prefixes_served(m: Seq<char>, f: DeepSeekApiFormat, a: MinimaxAuthMode)
    ensures
        kind_supports(ProviderKind::OpenAi, m),
        kind_supports(ProviderKind::Anthropic, m),
        has_prefix(m, "deepseek-"@) ==> kind_supports(ProviderKind::DeepSeek(f), m),
        has_prefix(m, "kimi-"@) ==> kind_supports(ProviderKind::Moonshot, m),
        has_prefix(m, "moonshot-"@) ==> kind_supports(ProviderKind::Moonshot, m),
        has_prefix(m, "glm-"@) ==> kind_supports(ProviderKind::Zhipu, m),
        has_prefix(m, "chatglm"@) ==> kind_supports(ProviderKind::Zhipu, m),
        has_prefix(m, "step-"@) ==> kind_supports(ProviderKind::Stepfun, m),
        has_prefix(m, "ernie-"@) ==> kind_supports(ProviderKind::Qianfan, m),
        has_prefix(m, "qianfan"@) ==> kind_supports(ProviderKind::Qianfan, m),
        has_prefix(m, "qwen-"@) ==> kind_supports(ProviderKind::Alibaba, m),
        has_prefix(m, "qwq-"@) ==> kind_supports(ProviderKind::Alibaba, m),
        has_prefix(m, "abab"@) ==> kind_supports(ProviderKind::Minimax(a), m),
        has_prefix(m, "minimax"@) ==> kind_supports(ProviderKind::Minimax(a), m),
        has_prefix(m, "MiniMax"@) ==> kind_supports(ProviderKind::Minimax(a), m),
{
}

/// A vendor's providers serve only names that start with one of its
/// prefixes.
pub proof fn lemma_vendor_serves_only_its_prefixes(m: Seq<char>, f: DeepSeekApiFormat, a: MinimaxAuthMode)
    ensures
        kind_supports(ProviderKind::DeepSeek(f), m) ==> has_prefix(m, "deepseek-"@),
        kind_supports(ProviderKind::Moonshot, m) ==> has_prefix(m, "kimi-"@) || has_prefix(m, "moonshot-"@),
        kind_supports(ProviderKind::Zhipu, m) ==> has_prefix(m, "glm-"@) || has_prefix(m, "chatglm"@),
        kind_supports(ProviderKind::Stepfun, m) ==> has_prefix(m, "step-"@),
        kind_supports(ProviderKind::Qianfan, m) ==> has_prefix(m, "ernie-"@) || has_prefix(m, "qianfan"@),
        kind_supports(ProviderKind::Alibaba, m) ==> has_prefix(m, "qwen-"@) || has_prefix(m, "qwq-"@),
        kind_supports(ProviderKind::Minimax(a), m) ==> has_prefix(m, "abab"@) || has_prefix(m, "minimax"@)
            || has_prefix(m, "MiniMax"@),
{
}

/// The HTTP dialect of a provider of this kind.
pub open spec fn kind_api(k: ProviderKind) -> ApiType {
    match k {
        ProviderKind::Anthropic => ApiType::Anthropic,
        ProviderKind::DeepSeek(DeepSeekApiFormat::OpenAi) => ApiType::OpenAi,
        ProviderKind::DeepSeek(DeepSeekApiFormat::Anthropic) => ApiType::Anthropic,
        _ => ApiType::OpenAiCompat,
    }
}

fn starts_with_str(s: &str, p: &str) -> (r: bool)
    ensures
        r == has_prefix(s@, p@),
{
    let sv = chars_of(s);
    let pv = chars_of(p);
    crate::text::starts_with_chars(&sv, &pv)
}

/// A registered provider: its name, endpoint, key and implementation.
#[derive(Debug, Clone)]
pub struct ProviderSpec {
    pub name: String,
    pub base_url: String,
    pub api_key: String,
    pub kind: ProviderKind,
}

/// A registration as (name, base URL, key, kind).
pub type ProviderView = (Seq<char>, Seq<char>, Seq<char>, ProviderKind);

/// A registration as plain values.
pub open spec fn provider_view(p: ProviderSpec) -> ProviderView {
    (p.name@, p.base_url@, p.api_key@, p.kind)
}

/// A list of registrations as plain values.
pub open spec fn provider_views(s: Seq<ProviderSpec>) -> Seq<ProviderView> {
    s.map_values(|p: ProviderSpec| provider_view(p))
}

impl ProviderSpec {
    /// Whether this provider serves `model`.
    pub fn supports(&self, model: &str) -> (r: bool)
        ensures
            r == kind_supports(self.kind, model@),
            self.kind == ProviderKind::Alibaba && (has_prefix(model@, "qwen-"@) || has_prefix(model@, "qwq-"@))
                ==> r,
            self.kind == ProviderKind::Moonshot && (has_prefix(model@, "kimi-"@) || has_prefix(
                model@,
                "moonshot-"@,
            )) ==> r,
            self.kind == ProviderKind::Zhipu && (has_prefix(model@, "glm-"@) || has_prefix(model@, "chatglm"@))
                ==> r,
            self.kind == ProviderKind::Qianfan && (has_prefix(model@, "ernie-"@) || has_prefix(
                model@,
                "qianfan"@,
            )) ==> r,
            self.kind == ProviderKind::Stepfun && has_prefix(model@, "step-"@) ==> r,
            self.kind is DeepSeek && has_prefix(model@, "deepseek-"@) ==> r,
            self.kind is Minimax && (has_prefix(model@, "abab"@) || has_prefix(model@, "minimax"@) || has_prefix(
                model@,
                "MiniMax"@,
            )) ==> r,
            self.kind == ProviderKind::OpenAi || self.kind == ProviderKind::Anthropic ==> r,
    {
        match self.kind {
            ProviderKind::OpenAi => true,
            ProviderKind::Anthropic => true,
            ProviderKind::DeepSeek(_) => starts_with_str(model, "deepseek-"),
            ProviderKind::Moonshot => starts_with_str(model, "kimi-") || starts_with_str(model, "moonshot-"),
            ProviderKind::Zhipu => starts_with_str(model, "glm-") || starts_with_str(model, "chatglm"),
            ProviderKind::Stepfun => starts_with_str(model, "step-"),
            ProviderKind::Qianfan => starts_with_str(model, "ernie-") || starts_with_str(model, "qianfan"),
            ProviderKind::Alibaba => starts_with_str(model, "qwen-") || starts_with_str(model, "qwq-"),
            ProviderKind::Minimax(_) => starts_with_str(model, "abab") || starts_with_str(model, "minimax")
                || starts_with_str(model, "MiniMax"),
        }
    }

    /// The HTTP dialect this provider speaks.
    pub fn api_type(&self) -> (r: ApiType)
        ensures
            r == kind_api(self.kind),
    {
        match self.kind {
            ProviderKind::Anthropic => ApiType::Anthropic,
            ProviderKind::DeepSeek(DeepSeekApiFormat::OpenAi) => ApiType::OpenAi,
            ProviderKind::DeepSeek(DeepSeekApiFormat::Anthropic) => ApiType::Anthropic,
            _ => ApiType::OpenAiCompat,
        }
    }
}

/// The providers known to the runtime, in registration order.
pub struct ProviderRegistry {
    providers: Vec<ProviderSpec>,
}

impl ProviderRegistry {
    /// The registered providers, in registration order.
    pub closed spec fn entries(self) -> Seq<ProviderSpec> {
        self.providers@
    }

    /// An empty registry.
    pub fn new() -> (r: Self)
        ensures
            r.entries().len() == 0,
    {
        ProviderRegistry { providers: Vec::new() }
    }

    /// Appends a provider; earlier registrations keep precedence.
    pub fn register(&mut self, provider: ProviderSpec)
        ensures
            final(self).entries() == old(self).entries().push(provider),
    {
        self.providers.push(provider);
    }

    /// The position of the first registered provider that serves `model`.
    pub fn find_index(&self, model: &str) -> (r: Option<usize>)
        ensures
            match r {
                Some(i) => i < self.entries().len() && kind_supports(self.entries()[i as int].kind, model@)
                    && forall|j: int| 0 <= j < i ==> !kind_supports(self.entries()[j].kind, model@),
                None => forall|i: int|
                    0 <= i < self.entries().len() ==> !kind_supports(self.entries()[i].kind, model@),
            },
    {
        let mut i: usize = 0;
        while i < self.providers.len()
            invariant
                i <= self.providers@.len(),
                forall|j: int| 0 <= j < i ==> !kind_supports(self.providers@[j].kind, model@),
            decreases self.providers@.len() - i,
        {
            if self.providers[i].supports(model) {
                return Some(i);
            }
            i = i + 1;
        }
        None
    }

    /// The provider registered at position `i`.
    pub fn get(&self, i: usize) -> (r: &ProviderSpec)
        requires
            i < self.entries().len(),
        ensures
            *r == self.entries()[i as int],
    {
        &self.providers[i]
    }

    /// The first registered provider that serves `model`.
    pub fn find(&self, model: &str) -> (r: Option<&ProviderSpec>)
        ensures
            match r {
                Some(p) => exists|i: int|
                    0 <= i < self.entries().len() && self.entries()[i] == *p
                        && kind_supports(self.entries()[i].kind, model@)
                        && forall|j: int| 0 <= j < i ==> !kind_supports(self.entries()[j].kind, model@),
                None => forall|i: int|
                    0 <= i < self.entries().len() ==> !kind_supports(self.entries()[i].kind, model@),
            },
    {
        let mut i: usize = 0;
        while i < self.providers.len()
            invariant
                i <= self.providers@.len(),
                forall|j: int| 0 <= j < i ==> !kind_supports(self.providers@[j].kind, model@),
            decreases self.providers@.len() - i,
        {
            if self.providers[i].supports(model) {
                return Some(&self.providers[i]);
            }
            i = i + 1;
        }
        None
    }

    /// The names of the registered providers, in registration order.
    pub fn list(&self) -> (r: Vec<String>)
        ensures
            r@.map_values(|s: String| s@) == self.entries().map_values(|p: ProviderSpec| p.name@),
    {
        let mut r: Vec<String> = Vec::new();
        let mut i: usize = 0;
        while i < self.providers.len()
            invariant
                i <= self.providers@.len(),
                r@.map_values(|s: String| s@) == self.providers@.take(i as int).map_values(
                    |p: ProviderSpec| p.name@,
                ),
            decreases self.providers@.len() - i,
        {
            let ghost before = r@;
            let name = self.providers[i].name.clone();
            assert(name@ == self.providers@[i as int].name@);
            r.push(name);
            assert(r@.map_values(|s: String| s@) =~= before.map_values(|s: String| s@).push(
                self.providers@[i as int].name@,
            ));
            assert(self.providers@.take(i + 1).map_values(|p: ProviderSpec| p.name@)
                =~= self.providers@.take(i as int).map_values(|p: ProviderSpec| p.name@).push(
                self.providers@[i as int].name@,
            ));
            i = i + 1;
        }
        assert(self.providers@.take(i as int) =~= self.providers@);
        r
    }

    /// Whether no provider is registered.
    pub fn is_empty(&self) -> (r: bool)
        ensures
            r == (self.entries().len() == 0),
    {
        self.providers.len() == 0
    }
}

/// The path of a chat call: `/messages` for Anthropic-style APIs and
/// `/chat/completions` for the others.
pub open spec fn chat_path(k: ProviderKind) -> Seq<char> {
    match kind_api(k) {
        ApiType::Anthropic => "/messages"@,
        _ => "/chat/completions"@,
    }
}

/// The headers that carry a provider's key: `x-api-key` with the API
/// version for Anthropic-style APIs, MiniMax's own `Authorization`, and a
/// bearer token for the others.
pub open spec fn auth_headers_of(k: ProviderKind, key: Seq<char>) -> Seq<(Seq<char>, Seq<char>)> {
    match kind_api(k) {
        ApiType::Anthropic => seq![("x-api-key"@, key), ("anthropic-version"@, "2023-06-01"@)],
        _ => match k {
            ProviderKind::Minimax(mode) => seq![("Authorization"@, minimax_auth_header(mode, key))],
            _ => seq![("Authorization"@, "Bearer "@ + key)],
        },
    }
}

impl ProviderSpec {
    /// The URL of this provider's chat endpoint.
    pub fn chat_url(&self) -> (r: String)
        ensures
            r@ == endpoint(self.base_url@, chat_path(self.kind)),
    {
        match self.api_type() {
            ApiType::Anthropic => endpoint_url(self.base_url.as_str(), "/messages"),
            _ => endpoint_url(self.base_url.as_str(), "/chat/completions"),
        }
    }

    /// The headers that carry this provider's key.
    pub fn auth_headers(&self) -> (r: Vec<(String, String)>)
        ensures
            r@.map_values(|h: (String, String)| (h.0@, h.1@)) == auth_headers_of(self.kind, self.api_key@),
    {
        let mut r: Vec<(String, String)> = Vec::new();
        match self.api_type() {
            ApiType::Anthropic => {
                r.push(("x-api-key".to_owned(), self.api_key.clone()));
                r.push(("anthropic-version".to_owned(), "2023-06-01".to_owned()));
            },
            _ => match self.kind {
                ProviderKind::Minimax(mode) => {
                    r.push(("Authorization".to_owned(), minimax_authorization(mode, self.api_key.as_str())));
                },
                _ => {
                    r.push(("Authorization".to_owned(), concat("Bearer ", self.api_key.as_str())));
                },
            },
        }
        assert(r@.map_values(|h: (String, String)| (h.0@, h.1@)) =~= auth_headers_of(self.kind, self.api_key@));
        r
    }
}

// ───────────────────────── registration from the environment ─────────────────────────

/// The registration made when `key` is set: one provider called `name` at
/// `base`, with the variable's value as its key; none when `key` is unset.
pub open spec fn key_entry(
    env: Seq<(String, String)>,
    key: Seq<char>,
    name: Seq<char>,
    base: Seq<char>,
    kind: ProviderKind,
) -> Seq<ProviderView> {
    match env_lookup(env, key) {
        Some(k) => seq![(name, base, k, kind)],
        None => seq![],
    }
}

/// The OpenAI-compatible services registered under a fixed endpoint, as
/// (key variable, name, base URL), in registration order.
pub open spec fn compat_table() -> Seq<(Seq<char>, Seq<char>, Seq<char>)> {
    seq![
        ("MISTRAL_API_KEY"@, "mistral"@, "https://api.mistral.ai/v1"@),
        ("PERPLEXITY_API_KEY"@, "perplexity"@, "https://api.perplexity.ai"@),
        ("XAI_API_KEY"@, "xai"@, "https://api.x.ai/v1"@),
        ("GROQ_API_KEY"@, "groq"@, "https://api.groq.com/openai/v1"@),
        ("TOGETHER_API_KEY"@, "together"@, "https://api.together.xyz/v1"@),
        ("FIREWORKS_API_KEY"@, "fireworks"@, "https://api.fireworks.ai/inference/v1"@),
        ("CEREBRAS_API_KEY"@, "cerebras"@, "https://api.cerebras.ai/v1"@),
        ("DEEPINFRA_API_KEY"@, "deepinfra"@, "https://api.deepinfra.com/v1/openai"@),
        ("HUGGINGFACE_API_KEY"@, "huggingface"@, "https://api-inference.huggingface.co/v1"@),
        ("NVIDIA_API_KEY"@, "nvidia"@, "https://integrate.api.nvidia.com/v1"@),
        ("OPENROUTER_API_KEY"@, "openrouter"@, "https://openrouter.ai/api/v1"@),
    ]
}

/// The registrations that the rows of `t` make, in order.
pub open spec fn table_plan(env: Seq<(String, String)>, t: Seq<(Seq<char>, Seq<char>, Seq<char>)>) -> Seq<ProviderView>
    decreases t.len(),
{
    if t.len() == 0 {
        seq![]
    } else {
        table_plan(env, t.drop_last()) + key_entry(env, t.last().0, t.last().1, t.last().2, ProviderKind::OpenAi)
    }
}

/// The international services: OpenAI and Anthropic (each with a base URL
/// that a variable may override), then the fixed OpenAI-compatible ones.
pub open spec fn international_plan(env: Seq<(String, String)>) -> Seq<ProviderView> {
    key_entry(env, "OPENAI_API_KEY"@, "openai"@,
        env_or(env, "OPENAI_BASE_URL"@, "https://api.openai.com/v1"@), ProviderKind::OpenAi)
    + key_entry(env, "ANTHROPIC_API_KEY"@, "anthropic"@,
        env_or(env, "ANTHROPIC_BASE_URL"@, "https://api.anthropic.com"@), ProviderKind::Anthropic)
    + table_plan(env, compat_table())
}

/// The Chinese services: DeepSeek (through both of its APIs), Moonshot,
/// Zhipu, StepFun, Qianfan, Alibaba and SiliconFlow.
pub open spec fn china_plan(env: Seq<(String, String)>) -> Seq<ProviderView> {
    key_entry(env, "DEEPSEEK_API_KEY"@, "deepseek"@, "https://api.deepseek.com"@,
        ProviderKind::DeepSeek(DeepSeekApiFormat::OpenAi))
    + key_entry(env, "DEEPSEEK_API_KEY"@, "deepseek"@, "https://api.deepseek.com/anthropic"@,
        ProviderKind::DeepSeek(DeepSeekApiFormat::Anthropic))
    + key_entry(env, "MOONSHOT_API_KEY"@, "moonshot"@, "https://api.moonshot.cn/v1"@, ProviderKind::Moonshot)
    + key_entry(env, "ZHIPU_API_KEY"@, "zhipu"@, "https://open.bigmodel.cn/api/paas/v4"@, ProviderKind::Zhipu)
    + key_entry(env, "STEPFUN_API_KEY"@, "stepfun"@, "https://api.stepfun.com/v1"@, ProviderKind::Stepfun)
    + key_entry(env, "QIANFAN_API_KEY"@, "qianfan"@, "https://qianfan.baidubce.com/v2"@, ProviderKind::Qianfan)
    + key_entry(env, "ALIBABA_API_KEY"@, "alibaba"@,
        "https://dashscope.aliyuncs.com/compatible-mode/v1"@, ProviderKind::Alibaba)
    + key_entry(env, "SILICONFLOW_API_KEY"@, "siliconflow"@, "https://api.siliconflow.cn/v1"@,
        ProviderKind::OpenAi)
}

/// The MiniMax registration for `key`: the Chinese or international
/// endpoint, and key-as-is authorization exactly when `mode` is `"auth"`.
pub open spec fn minimax_registration(key: Seq<char>, is_cn: bool, mode: Seq<char>) -> ProviderView {
    (
        if is_cn { "minimax-cn"@ } else { "minimax-intl"@ },
        if is_cn { "https://api.minimax.chat/v1"@ } else { "https://api.minimax.io/v1"@ },
        key,
        ProviderKind::Minimax(if mode == "auth"@ { MinimaxAuthMode::Auth } else { MinimaxAuthMode::Token }),
    )
}

/// The mode variable read for a MiniMax registration, and its default.
pub open spec fn minimax_mode(env: Seq<(String, String)>, is_cn: bool) -> Seq<char> {
    if is_cn {
        env_or(env, "MINIMAX_CN_AUTH_MODE"@, "auth"@)
    } else {
        env_or(env, "MINIMAX_AUTH_MODE"@, "token"@)
    }
}

/// The MiniMax registrations: international, then Chinese.
pub open spec fn minimax_plan(env: Seq<(String, String)>) -> Seq<ProviderView> {
    (match env_lookup(env, "MINIMAX_API_KEY"@) {
        Some(k) => seq![minimax_registration(k, false, minimax_mode(env, false))],
        None => seq![],
    }) + (match env_lookup(env, "MINIMAX_CN_API_KEY"@) {
        Some(k) => seq![minimax_registration(k, true, minimax_mode(env, true))],
        None => seq![],
    })
}

/// A local server registered when its base URL variable is set, with the
/// key variable's value (empty when unset) as its key.
pub open spec fn local_entry(env: Seq<(String, String)>, base_var: Seq<char>, key_var: Seq<char>, name: Seq<char>) -> Seq<ProviderView> {
    match env_lookup(env, base_var) {
        Some(b) => seq![(name, b, env_or(env, key_var, ""@), ProviderKind::OpenAi)],
        None => seq![],
    }
}

/// The local servers: Ollama always (at its default address unless a base
/// URL is set), then LM Studio and vLLM where configured.
pub open spec fn local_plan(env: Seq<(String, String)>) -> Seq<ProviderView> {
    (match env_lookup(env, "OLLAMA_BASE_URL"@) {
        Some(b) => seq![("ollama"@, b, env_or(env, "OLLAMA_API_KEY"@, ""@), ProviderKind::OpenAi)],
        None => seq![("ollama"@, "http://localhost:11434/v1"@, ""@, ProviderKind::OpenAi)],
    })
    + local_entry(env, "LMSTUDIO_BASE_URL"@, "LMSTUDIO_API_KEY"@, "lmstudio"@)
    + local_entry(env, "VLLM_BASE_URL"@, "VLLM_API_KEY"@, "vllm"@)
}

/// Everything registered from the environment, in registration order.
pub open spec fn auto_plan(env: Seq<(String, String)>) -> Seq<ProviderView> {
    international_plan(env) + china_plan(env) + minimax_plan(env) + local_plan(env)
}

pub(crate) fn spec_of(name: &str, base: String, key: String, kind: ProviderKind) -> (p: ProviderSpec)
    ensures
        provider_view(p) == (name@, base@, key@, kind),
{
    ProviderSpec { name: name.to_owned(), base_url: base, api_key: key, kind }
}

/// Registers a provider when `key` is set in `env`.
pub(crate) fn register_if_set(
    reg: &mut ProviderRegistry,
    env: &Vec<(String, String)>,
    key: &str,
    name: &str,
    base: String,
    kind: ProviderKind,
)
    ensures
        provider_views(final(reg).entries()) == provider_views(old(reg).entries())
            + key_entry(env@, key@, name@, base@, kind),
{
    let ghost before = provider_views(reg.entries());
    match lookup(env, key) {
        Some(k) => {
            let p = spec_of(name, base, k, kind);
            reg.register(p);
            assert(provider_views(reg.entries()) =~= before.push(provider_view(p)));
        },
        None => {
            assert(provider_views(reg.entries()) =~= before + seq![]);
        },
    }
}

fn compat_rows() -> (r: Vec<(&'static str, &'static str, &'static str)>)
    ensures
        r@.map_values(|t: (&'static str, &'static str, &'static str)| (t.0@, t.1@, t.2@)) == compat_table(),
{
    let mut r: Vec<(&'static str, &'static str, &'static str)> = Vec::new();
    r.push(("MISTRAL_API_KEY", "mistral", "https://api.mistral.ai/v1"));
    r.push(("PERPLEXITY_API_KEY", "perplexity", "https://api.perplexity.ai"));
    r.push(("XAI_API_KEY", "xai", "https://api.x.ai/v1"));
    r.push(("GROQ_API_KEY", "groq", "https://api.groq.com/openai/v1"));
    r.push(("TOGETHER_API_KEY", "together", "https://api.together.xyz/v1"));
    r.push(("FIREWORKS_API_KEY", "fireworks", "https://api.fireworks.ai/inference/v1"));
    r.push(("CEREBRAS_API_KEY", "cerebras", "https://api.cerebras.ai/v1"));
    r.push(("DEEPINFRA_API_KEY", "deepinfra", "https://api.deepinfra.com/v1/openai"));
    r.push(("HUGGINGFACE_API_KEY", "huggingface", "https://api-inference.huggingface.co/v1"));
    r.push(("NVIDIA_API_KEY", "nvidia", "https://integrate.api.nvidia.com/v1"));
    r.push(("OPENROUTER_API_KEY", "openrouter", "https://openrouter.ai/api/v1"));
    assert(r@.map_values(|t: (&'static str, &'static str, &'static str)| (t.0@, t.1@, t.2@)) =~= compat_table());
    r
}

fn register_international(reg: &mut ProviderRegistry, env: &Vec<(String, String)>)
    ensures
        provider_views(final(reg).entries()) == provider_views(old(reg).entries()) + international_plan(env@),
{
    let ghost start = provider_views(reg.entries());
    let openai_base = lookup_or(env, "OPENAI_BASE_URL", "https://api.openai.com/v1");
    register_if_set(reg, env, "OPENAI_API_KEY", "openai", openai_base, ProviderKind::OpenAi);
    let anthropic_base = lookup_or(env, "ANTHROPIC_BASE_URL", "https://api.anthropic.com");
    register_if_set(reg, env, "ANTHROPIC_API_KEY", "anthropic", anthropic_base, ProviderKind::Anthropic);
    let ghost mid = provider_views(reg.entries());
    let rows = compat_rows();
    let ghost table = compat_table();
    let mut i: usize = 0;
    while i < rows.len()
        invariant
            i <= rows@.len(),
            rows@.map_values(|t: (&'static str, &'static str, &'static str)| (t.0@, t.1@, t.2@)) == table,
            provider_views(reg.entries()) == mid + table_plan(env@, table.take(i as int)),
        decreases rows@.len() - i,
    {
        let (key, name, base) = rows[i];
        assert(table[i as int] == (key@, name@, base@));
        assert(table.take(i + 1).drop_last() =~= table.take(i as int));
        register_if_set(reg, env, key, name, base.to_owned(), ProviderKind::OpenAi);
        i = i + 1;
    }
    assert(table.take(rows@.len() as int) =~= table);
    assert(provider_views(reg.entries()) =~= start + international_plan(env@));
}

fn register_china(reg: &mut ProviderRegistry, env: &Vec<(String, String)>)
    ensures
        provider_views(final(reg).entries()) == provider_views(old(reg).entries()) + china_plan(env@),
{
    let ghost start = provider_views(reg.entries());
    register_if_set(reg, env, "DEEPSEEK_API_KEY", "deepseek", "https://api.deepseek.com".to_owned(),
        ProviderKind::DeepSeek(DeepSeekApiFormat::OpenAi));
    register_if_set(reg, env, "DEEPSEEK_API_KEY", "deepseek", "https://api.deepseek.com/anthropic".to_owned(),
        ProviderKind::DeepSeek(DeepSeekApiFormat::Anthropic));
    register_if_set(reg, env, "MOONSHOT_API_KEY", "moonshot", "https://api.moonshot.cn/v1".to_owned(),
        ProviderKind::Moonshot);
    register_if_set(reg, env, "ZHIPU_API_KEY", "zhipu", "https://open.bigmodel.cn/api/paas/v4".to_owned(),
        ProviderKind::Zhipu);
    register_if_set(reg, env, "STEPFUN_API_KEY", "stepfun", "https://api.stepfun.com/v1".to_owned(),
        ProviderKind::Stepfun);
    register_if_set(reg, env, "QIANFAN_API_KEY", "qianfan", "https://qianfan.baidubce.com/v2".to_owned(),
        ProviderKind::Qianfan);
    register_if_set(reg, env, "ALIBABA_API_KEY", "alibaba",
        "https://dashscope.aliyuncs.com/compatible-mode/v1".to_owned(), ProviderKind::Alibaba);
    register_if_set(reg, env, "SILICONFLOW_API_KEY", "siliconflow", "https://api.siliconflow.cn/v1".to_owned(),
        ProviderKind::OpenAi);
    assert(provider_views(reg.entries()) =~= start + china_plan(env@));
}

/// Registers a MiniMax provider for `key`, on the Chinese or international
/// endpoint, reading the authorization mode from the environment.
pub fn register_minimax(reg: &mut ProviderRegistry, env: &Vec<(String, String)>, key: &str, is_cn: bool)
    ensures
        final(reg).entries().len() == old(reg).entries().len() + 1,
        provider_views(final(reg).entries()) == provider_views(old(reg).entries()).push(
            minimax_registration(key@, is_cn, minimax_mode(env@, is_cn)),
        ),
{
    let ghost before = provider_views(reg.entries());
    let mode = if is_cn {
        lookup_or(env, "MINIMAX_CN_AUTH_MODE", "auth")
    } else {
        lookup_or(env, "MINIMAX_AUTH_MODE", "token")
    };
    let auth_mode = if str_eq(mode.as_str(), "auth") {
        MinimaxAuthMode::Auth
    } else {
        MinimaxAuthMode::Token
    };
    let base = if is_cn {
        "https://api.minimax.chat/v1"
    } else {
        "https://api.minimax.io/v1"
    };
    let name = if is_cn {
        "minimax-cn"
    } else {
        "minimax-intl"
    };
    let p = spec_of(name, base.to_owned(), key.to_owned(), ProviderKind::Minimax(auth_mode));
    reg.register(p);
    assert(provider_views(reg.entries()) =~= before.push(provider_view(p)));
}

fn register_local(reg: &mut ProviderRegistry, env: &Vec<(String, String)>)
    ensures
        provider_views(final(reg).entries()) == provider_views(old(reg).entries()) + local_plan(env@),
{
    let ghost start = provider_views(reg.entries());
    match lookup(env, "OLLAMA_BASE_URL") {
        Some(b) => {
            let k = lookup_or(env, "OLLAMA_API_KEY", "");
            let p = spec_of("ollama", b, k, ProviderKind::OpenAi);
            reg.register(p);
        },
        None => {
            let p = spec_of("ollama", "http://localhost:11434/v1".to_owned(), "".to_owned(), ProviderKind::OpenAi);
            reg.register(p);
        },
    }
    let ghost after_ollama = provider_views(reg.entries());
    assert(after_ollama =~= start + (match env_lookup(env@, "OLLAMA_BASE_URL"@) {
        Some(b) => seq![("ollama"@, b, env_or(env@, "OLLAMA_API_KEY"@, ""@), ProviderKind::OpenAi)],
        None => seq![("ollama"@, "http://localhost:11434/v1"@, ""@, ProviderKind::OpenAi)],
    }));
    if let Some(b) = lookup(env, "LMSTUDIO_BASE_URL") {
        let k = lookup_or(env, "LMSTUDIO_API_KEY", "");
        reg.register(spec_of("lmstudio", b, k, ProviderKind::OpenAi));
    }
    let ghost after_lm = provider_views(reg.entries());
    assert(after_lm =~= after_ollama + local_entry(env@, "LMSTUDIO_BASE_URL"@, "LMSTUDIO_API_KEY"@, "lmstudio"@));
    if let Some(b) = lookup(env, "VLLM_BASE_URL") {
        let k = lookup_or(env, "VLLM_API_KEY", "");
        reg.register(spec_of("vllm", b, k, ProviderKind::OpenAi));
    }
    assert(provider_views(reg.entries()) =~= after_lm + local_entry(env@, "VLLM_BASE_URL"@, "VLLM_API_KEY"@, "vllm"@));
    assert(provider_views(reg.entries()) =~= start + local_plan(env@));
}

/// The model-provider module: a registry filled from the environment.
pub struct ModelsModule {
    pub registry: ProviderRegistry,
}

impl ModelsModule {
    /// A module with an empty registry.
    pub fn new() -> (r: Self)
        ensures
            r.registry.entries().len() == 0,
    {
        ModelsModule { registry: ProviderRegistry::new() }
    }

    /// Registers every provider that the environment configures, in a fixed
    /// order: the international services, the Chinese services, MiniMax,
    /// and the local servers (Ollama always).
    #[verifier::rlimit(40)]
    pub fn auto_register(&mut self, env: &Vec<(String, String)>)
        ensures
            provider_views(final(self).registry.entries()) == provider_views(old(self).registry.entries())
                + auto_plan(env@),
    {
        let ghost start = provider_views(self.registry.entries());
        register_international(&mut self.registry, env);
        register_china(&mut self.registry, env);
        let ghost before_minimax = provider_views(self.registry.entries());
        if let Some(k) = lookup(env, "MINIMAX_API_KEY") {
            register_minimax(&mut self.registry, env, k.as_str(), false);
        }
        if let Some(k) = lookup(env, "MINIMAX_CN_API_KEY") {
            register_minimax(&mut self.registry, env, k.as_str(), true);
        }
        assert(provider_views(self.registry.entries()) =~= before_minimax + minimax_plan(env@));
        register_local(&mut self.registry, env);
        assert(provider_views(self.registry.entries()) =~= start + auto_plan(env@));
    }
}


/// Whatever the environment, the registration from it includes Ollama.
pub proof fn lemma_ollama_always_registered(env: Seq<(String, String)>)
    ensures
        exists|i: int| 0 <= i < auto_plan(env).len() && #[trigger] auto_plan(env)[i].0 == "ollama"@,
{
    let front = international_plan(env) + china_plan(env) + minimax_plan(env);
    let i = front.len() as int;
    assert(auto_plan(env) == front + local_plan(env));
    assert(local_plan(env)[0].0 == "ollama"@);
    assert(auto_plan(env)[i] == local_plan(env)[0]);
}

} // verus!
