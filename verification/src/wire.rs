//! The providers' HTTP exchanges as plain values: the fields a provider's
//! request body carries, the fields of an answer it reads, and the JSON
//! payloads a streamed answer carries.
use vstd::prelude::*;
use crate::models::{
    anthropic_role_name, effort_wire_name, first_system, kind_api, moonshot_thinking_mode, msg_view, role_name,
    role_to, role_wire_name, split_system, without_system, ApiType, ChatResponse, DeepSeekApiFormat, Message,
    ProviderKind, ReasoningEffort, Role, StreamChunk, ThinkingMode,
};
use crate::stream::{
    anthropic_chunk, anthropic_event_chunk, delta_chunk, delta_chunk_content, first_present, first_text, sse_data,
    sse_payload,
};
use crate::text::{chars_of, has_prefix, lines, next_line, slice_chars, starts_with_chars, string_of};

verus! {

/// An optional text by its characters.
pub open spec fn opt_text(o: Option<String>) -> Option<Seq<char>> {
    match o {
        Some(s) => Some(s@),
        None => None,
    }
}

/// A conversation as (role, text) pairs.
pub open spec fn conversation(ms: Seq<Message>) -> Seq<(Role, Seq<char>)> {
    ms.map_values(|m: Message| msg_view(m))
}

/// (role name, text) pairs by their characters.
pub open spec fn pair_texts(ps: Seq<(String, String)>) -> Seq<(Seq<char>, Seq<char>)> {
    ps.map_values(|p: (String, String)| (p.0@, p.1@))
}

// ───────────────────────── request bodies ─────────────────────────

/// How a request body carries the request's temperature.
#[derive(Debug, Clone, Copy, PartialEq, Eq, Structural)]
pub enum TemperatureField {
    /// The body has no temperature.
    Omitted,
    /// The body has the request's temperature when the request sets one.
    WhenGiven,
    /// The body always has a temperature: the request's, else 0.7.
    GivenOrDefault,
}

/// The fields of a request body. Messages are (role name, text) pairs.
#[derive(Debug, Clone)]
pub struct RequestBody {
    pub model: String,
    pub messages: Vec<(String, String)>,
    pub system: Option<String>,
    pub max_tokens: u32,
    pub temperature: TemperatureField,
    pub thinking: Option<String>,
    pub reasoning_effort: Option<String>,
    pub output_effort: Option<String>,
    pub stream: bool,
}

/// The messages of a body with their roles by name: Anthropic-style bodies
/// name roles as `role_to` does, the others as `role_name` does.
pub open spec fn wire_pairs(s: Seq<(Role, Seq<char>)>, anthropic: bool) -> Seq<(Seq<char>, Seq<char>)> {
    s.map_values(
        |m: (Role, Seq<char>)|
            (if anthropic {
                anthropic_role_name(m.0)
            } else {
                role_wire_name(m.0)
            }, m.1),
    )
}

/// How a provider's body carries the temperature: DeepSeek's Anthropic API
/// gets none, Anthropic-style providers get the request's when set, the
/// others always get one.
pub open spec fn body_temperature(k: ProviderKind) -> TemperatureField {
    match k {
        ProviderKind::DeepSeek(DeepSeekApiFormat::Anthropic) => TemperatureField::Omitted,
        ProviderKind::Anthropic => TemperatureField::WhenGiven,
        _ => TemperatureField::GivenOrDefault,
    }
}

/// The thinking switch of a provider's body: always enabled for DeepSeek's
/// OpenAI API, as `moonshot_thinking_mode` says for Moonshot, none else.
pub open spec fn body_thinking(k: ProviderKind, model: Seq<char>, requested: Option<Seq<char>>) -> Option<Seq<char>> {
    match k {
        ProviderKind::DeepSeek(DeepSeekApiFormat::OpenAi) => Some("enabled"@),
        ProviderKind::Moonshot => moonshot_thinking_mode(model, requested),
        _ => None,
    }
}

/// The requested effort, `high` when none is requested.
pub open spec fn effort_or_high(effort: Option<ReasoningEffort>) -> Seq<char> {
    match effort {
        Some(e) => effort_wire_name(e),
        None => effort_wire_name(ReasoningEffort::High),
    }
}

/// The `reasoning_effort` field: only DeepSeek's OpenAI API has one.
pub open spec fn body_reasoning_effort(k: ProviderKind, effort: Option<ReasoningEffort>) -> Option<Seq<char>> {
    match k {
        ProviderKind::DeepSeek(DeepSeekApiFormat::OpenAi) => Some(effort_or_high(effort)),
        _ => None,
    }
}

/// The `output_config.effort` field: only DeepSeek's Anthropic API has one.
pub open spec fn body_output_effort(k: ProviderKind, effort: Option<ReasoningEffort>) -> Option<Seq<char>> {
    match k {
        ProviderKind::DeepSeek(DeepSeekApiFormat::Anthropic) => Some(effort_or_high(effort)),
        _ => None,
    }
}

/// The requested thinking mode by its characters.
pub open spec fn requested_mode(t: Option<ThinkingMode>) -> Option<Seq<char>> {
    match t {
        Some(m) => Some(m.mode@),
        None => None,
    }
}

/// The messages with their roles by name.
pub fn wire_messages(messages: &Vec<Message>, anthropic: bool) -> (r: Vec<(String, String)>)
    ensures
        pair_texts(r@) == wire_pairs(conversation(messages@), anthropic),
{
    let mut r: Vec<(String, String)> = Vec::new();
    let mut i: usize = 0;
    while i < messages.len()
        invariant
            i <= messages@.len(),
            pair_texts(r@) == wire_pairs(conversation(messages@.take(i as int)), anthropic),
        decreases messages@.len() - i,
    {
        let m = &messages[i];
        let role: &str = if anthropic { role_to(m.role) } else { role_name(m.role) };
        let ghost before = pair_texts(r@);
        r.push((role.to_owned(), m.content.clone()));
        proof {
            assert(conversation(messages@.take(i + 1)) =~= conversation(messages@.take(i as int)).push(
                msg_view(messages@[i as int]),
            ));
            assert(pair_texts(r@) =~= before.push((role@, m.content@)));
            assert(wire_pairs(conversation(messages@.take(i + 1)), anthropic) =~= wire_pairs(
                conversation(messages@.take(i as int)),
                anthropic,
            ).push((role@, m.content@)));
        }
        i = i + 1;
    }
    assert(messages@.take(messages@.len() as int) =~= messages@);
    r
}

/// The request body a provider of kind `kind` sends. Anthropic-style
/// providers send the first system message as the system prompt and the
/// other messages without system messages; the others send every message.
/// `max_tokens` defaults to 4096.
pub fn request_body(
    kind: ProviderKind,
    model: &str,
    messages: &Vec<Message>,
    max_tokens: Option<u32>,
    thinking: &Option<ThinkingMode>,
    effort: Option<ReasoningEffort>,
    stream: bool,
) -> (r: RequestBody)
    ensures
        r.model@ == model@,
        r.max_tokens == (match max_tokens {
            Some(n) => n,
            None => 4096,
        }),
        r.stream == stream,
        r.temperature == body_temperature(kind),
        opt_text(r.thinking) == body_thinking(kind, model@, requested_mode(*thinking)),
        opt_text(r.reasoning_effort) == body_reasoning_effort(kind, effort),
        opt_text(r.output_effort) == body_output_effort(kind, effort),
        kind_api(kind) == ApiType::Anthropic ==> pair_texts(r.messages@) == wire_pairs(
            without_system(conversation(messages@)),
            true,
        ) && opt_text(r.system) == first_system(conversation(messages@)),
        kind_api(kind) != ApiType::Anthropic ==> pair_texts(r.messages@) == wire_pairs(
            conversation(messages@),
            false,
        ) && r.system is None,
{
    let anthropic = match kind {
        ProviderKind::Anthropic => true,
        ProviderKind::DeepSeek(DeepSeekApiFormat::Anthropic) => true,
        _ => false,
    };
    let (msgs, system) = if anthropic {
        let (s, rest) = split_system(messages);
        assert(conversation(rest@) == without_system(conversation(messages@)));
        (wire_messages(&rest, true), s)
    } else {
        (wire_messages(messages, false), None)
    };
    let temperature = match kind {
        ProviderKind::DeepSeek(DeepSeekApiFormat::Anthropic) => TemperatureField::Omitted,
        ProviderKind::Anthropic => TemperatureField::WhenGiven,
        _ => TemperatureField::GivenOrDefault,
    };
    let effort_text = match effort {
        Some(e) => crate::models::effort_name(e).to_owned(),
        None => crate::models::effort_name(ReasoningEffort::High).to_owned(),
    };
    let (thinking_field, reasoning_effort, output_effort) = match kind {
        ProviderKind::DeepSeek(DeepSeekApiFormat::OpenAi) => (Some("enabled".to_owned()), Some(effort_text), None),
        ProviderKind::DeepSeek(DeepSeekApiFormat::Anthropic) => (None, None, Some(effort_text)),
        ProviderKind::Moonshot => (crate::models::moonshot_thinking(model, thinking), None, None),
        _ => (None, None, None),
    };
    proof {
        reveal_strlit("enabled");
    }
    RequestBody {
        model: model.to_owned(),
        messages: msgs,
        system,
        max_tokens: match max_tokens {
            Some(n) => n,
            None => 4096,
        },
        temperature,
        thinking: thinking_field,
        reasoning_effort,
        output_effort,
        stream,
    }
}

// ───────────────────────── answers ─────────────────────────

/// The fields of an answer that the providers read, each absent when the
/// answer has no text there.
#[derive(Debug, Clone)]
pub struct AnswerFields {
    /// `choices[0].delta.content`
    pub delta_content: Option<String>,
    /// `choices[0].message.content`
    pub message_content: Option<String>,
    /// `content[0].text`
    pub block_text: Option<String>,
    /// `choices[0].delta.reasoning_content`
    pub delta_reasoning: Option<String>,
    /// `choices[0].message.reasoning_content`
    pub message_reasoning: Option<String>,
    /// `choices[0].finish_reason`
    pub finish_reason: Option<String>,
    /// `stop_reason`
    pub stop_reason: Option<String>,
}

/// Whether a provider of this kind is one of the plain OpenAI-compatible
/// ones (the generic one and those that wrap it).
pub open spec fn is_openai_family(k: ProviderKind) -> bool {
    match k {
        ProviderKind::OpenAi => true,
        ProviderKind::Zhipu => true,
        ProviderKind::Stepfun => true,
        ProviderKind::Qianfan => true,
        ProviderKind::Alibaba => true,
        _ => false,
    }
}

/// Where a provider reads the answer of a complete call: Anthropic from the
/// first content block; Moonshot and MiniMax from the message; DeepSeek from
/// the delta, the message or the first content block, the first present;
/// the others from the delta or the message.
pub open spec fn answer_content(k: ProviderKind, f: AnswerFields) -> Option<Seq<char>> {
    answer_content_view(k, answer_view(f))
}

/// `answer_content` over an answer's fields by their characters.
pub open spec fn answer_content_view(k: ProviderKind, v: AnswerView) -> Option<Seq<char>> {
    match k {
        ProviderKind::Anthropic => v.2,
        ProviderKind::Moonshot => v.1,
        ProviderKind::Minimax(_) => v.1,
        ProviderKind::DeepSeek(_) => first_present(seq![v.0, v.1, v.2]),
        _ => first_present(seq![v.0, v.1]),
    }
}

/// The reasoning of a complete call: only the OpenAI-compatible family
/// reads one, from the delta or the message.
pub open spec fn answer_reasoning(k: ProviderKind, f: AnswerFields) -> Option<Seq<char>> {
    answer_reasoning_view(k, answer_view(f))
}

/// `answer_reasoning` over an answer's fields by their characters.
pub open spec fn answer_reasoning_view(k: ProviderKind, v: AnswerView) -> Option<Seq<char>> {
    if is_openai_family(k) {
        first_present(seq![v.3, v.4])
    } else {
        None
    }
}

/// The finish reason of a complete call: Anthropic's stop reason; none for
/// Moonshot and DeepSeek; the choice's finish reason for the others.
pub open spec fn answer_finish(k: ProviderKind, f: AnswerFields) -> Option<Seq<char>> {
    answer_finish_view(k, answer_view(f))
}

/// `answer_finish` over an answer's fields by their characters.
pub open spec fn answer_finish_view(k: ProviderKind, v: AnswerView) -> Option<Seq<char>> {
    match k {
        ProviderKind::Anthropic => v.6,
        ProviderKind::Moonshot => None,
        ProviderKind::DeepSeek(_) => None,
        _ => v.5,
    }
}

/// The text, or the empty text when there is none.
pub open spec fn or_empty(t: Option<Seq<char>>) -> Seq<char> {
    match t {
        Some(x) => x,
        None => Seq::empty(),
    }
}

proof fn lemma_opt_map2(a: Option<String>, b: Option<String>)
    ensures
        seq![a, b].map_values(|c: Option<String>| match c { Some(x) => Some(x@), None => None })
            =~= seq![opt_text(a), opt_text(b)],
{
}

proof fn lemma_opt_map3(a: Option<String>, b: Option<String>, c: Option<String>)
    ensures
        seq![a, b, c].map_values(|o: Option<String>| match o { Some(x) => Some(x@), None => None })
            =~= seq![opt_text(a), opt_text(b), opt_text(c)],
{
}

/// The first present of two texts.
fn first_of2(a: Option<String>, b: Option<String>) -> (r: Option<String>)
    ensures
        opt_text(r) == first_present(seq![opt_text(a), opt_text(b)]),
{
    let v = vec![a, b];
    proof {
        lemma_opt_map2(v@[0], v@[1]);
        assert(v@ =~= seq![v@[0], v@[1]]);
    }
    first_text(v)
}

/// The first present of three texts.
fn first_of3(a: Option<String>, b: Option<String>, c: Option<String>) -> (r: Option<String>)
    ensures
        opt_text(r) == first_present(seq![opt_text(a), opt_text(b), opt_text(c)]),
{
    let v = vec![a, b, c];
    proof {
        lemma_opt_map3(v@[0], v@[1], v@[2]);
        assert(v@ =~= seq![v@[0], v@[1], v@[2]]);
    }
    first_text(v)
}

/// The answer of a complete call, read from the answer's fields as a
/// provider of kind `kind` reads them; an absent answer text is empty.
pub fn chat_response(kind: ProviderKind, f: AnswerFields) -> (r: ChatResponse)
    ensures
        r.content@ == or_empty(answer_content(kind, f)),
        opt_text(r.reasoning_content) == answer_reasoning(kind, f),
        opt_text(r.finish_reason) == answer_finish(kind, f),
        r.usage is None,
{
    let AnswerFields {
        delta_content,
        message_content,
        block_text,
        delta_reasoning,
        message_reasoning,
        finish_reason,
        stop_reason,
    } = f;
    let content = match kind {
        ProviderKind::Anthropic => block_text,
        ProviderKind::Moonshot => message_content,
        ProviderKind::Minimax(_) => message_content,
        ProviderKind::DeepSeek(_) => first_of3(delta_content, message_content, block_text),
        _ => first_of2(delta_content, message_content),
    };
    let reasoning = match kind {
        ProviderKind::OpenAi => first_of2(delta_reasoning, message_reasoning),
        ProviderKind::Zhipu => first_of2(delta_reasoning, message_reasoning),
        ProviderKind::Stepfun => first_of2(delta_reasoning, message_reasoning),
        ProviderKind::Qianfan => first_of2(delta_reasoning, message_reasoning),
        ProviderKind::Alibaba => first_of2(delta_reasoning, message_reasoning),
        _ => None,
    };
    let finish = match kind {
        ProviderKind::Anthropic => stop_reason,
        ProviderKind::Moonshot => None,
        ProviderKind::DeepSeek(_) => None,
        _ => finish_reason,
    };
    let text = match content {
        Some(c) => c,
        None => String::new(),
    };
    ChatResponse { content: text, reasoning_content: reasoning, finish_reason: finish, usage: None }
}

// ───────────────────────── streamed answers ─────────────────────────

/// Whether a provider of this kind streams its answer as events (blocks
/// of lines ended by a blank line) rather than as lines: only the generic
/// Anthropic provider does.
pub fn streams_events(kind: ProviderKind) -> (r: bool)
    ensures
        r == (kind == ProviderKind::Anthropic),
{
    match kind {
        ProviderKind::Anthropic => true,
        _ => false,
    }
}

/// The chunk one streamed line yields, as (text, finish reason), for a
/// provider that streams lines: DeepSeek joins the delta's reasoning and
/// text; Moonshot and MiniMax send the delta's text; the OpenAI-compatible
/// family joins the first present reasoning and text of the delta and the
/// message. The generic Anthropic provider streams events instead.
pub open spec fn line_chunk(k: ProviderKind, f: AnswerFields) -> Option<(Seq<char>, Option<Seq<char>>)> {
    line_chunk_view(k, answer_view(f))
}

/// The fields of an answer by their characters, in the order of
/// `AnswerFields`: delta text, message text, first block text, delta
/// reasoning, message reasoning, finish reason, stop reason.
pub type AnswerView = (
    Option<Seq<char>>,
    Option<Seq<char>>,
    Option<Seq<char>>,
    Option<Seq<char>>,
    Option<Seq<char>>,
    Option<Seq<char>>,
    Option<Seq<char>>,
);

/// An answer's fields by their characters.
pub open spec fn answer_view(f: AnswerFields) -> AnswerView {
    (
        opt_text(f.delta_content),
        opt_text(f.message_content),
        opt_text(f.block_text),
        opt_text(f.delta_reasoning),
        opt_text(f.message_reasoning),
        opt_text(f.finish_reason),
        opt_text(f.stop_reason),
    )
}

/// `line_chunk` over an answer's fields by their characters.
pub open spec fn line_chunk_view(k: ProviderKind, v: AnswerView) -> Option<(Seq<char>, Option<Seq<char>>)> {
    match k {
        ProviderKind::Anthropic => None,
        ProviderKind::DeepSeek(_) => Some((delta_chunk_content(v.0, v.3), v.5)),
        ProviderKind::Moonshot => Some((delta_chunk_content(v.0, None), v.5)),
        ProviderKind::Minimax(_) => Some((delta_chunk_content(v.0, None), v.5)),
        _ => Some(
            (delta_chunk_content(first_present(seq![v.0, v.1]), first_present(seq![v.3, v.4])), v.5),
        ),
    }
}

/// The chunk one streamed line yields (see `line_chunk`).
pub fn stream_chunk(kind: ProviderKind, f: AnswerFields) -> (r: Option<StreamChunk>)
    ensures
        match r {
            Some(c) => line_chunk(kind, f) == Some((c.content@, opt_text(c.finish_reason))),
            None => line_chunk(kind, f) is None,
        },
{
    let AnswerFields {
        delta_content,
        message_content,
        block_text: _,
        delta_reasoning,
        message_reasoning,
        finish_reason,
        stop_reason: _,
    } = f;
    match kind {
        ProviderKind::Anthropic => None,
        ProviderKind::DeepSeek(_) => Some(delta_chunk(delta_content, delta_reasoning, finish_reason)),
        ProviderKind::Moonshot => Some(delta_chunk(delta_content, None, finish_reason)),
        ProviderKind::Minimax(_) => Some(delta_chunk(delta_content, None, finish_reason)),
        _ => {
            let c = first_of2(delta_content, message_content);
            let x = first_of2(delta_reasoning, message_reasoning);
            Some(delta_chunk(c, x, finish_reason))
        },
    }
}

/// The payloads of streamed lines, in order: each line's payload as
/// `sse_payload` reads it, lines without one skipped.
pub open spec fn line_payloads(ls: Seq<Seq<char>>) -> Seq<Seq<char>>
    decreases ls.len(),
{
    if ls.len() == 0 {
        Seq::empty()
    } else {
        match sse_payload(ls[0]) {
            Some(p) => seq![p] + line_payloads(ls.drop_first()),
            None => line_payloads(ls.drop_first()),
        }
    }
}

/// The payloads of the `data: ` lines of one event, in order: what follows
/// `data: ` on each line that starts with it.
pub open spec fn event_data(ls: Seq<Seq<char>>) -> Seq<Seq<char>>
    decreases ls.len(),
{
    if ls.len() == 0 {
        Seq::empty()
    } else if has_prefix(ls[0], "data: "@) {
        seq![ls[0].skip(6)] + event_data(ls.drop_first())
    } else {
        event_data(ls.drop_first())
    }
}

/// Texts by their characters.
pub open spec fn texts(v: Seq<String>) -> Seq<Seq<char>> {
    v.map_values(|s: String| s@)
}

/// The JSON payloads of a piece of a line-streamed answer, line by line.
pub fn line_payloads_of(text: &str) -> (r: Vec<String>)
    ensures
        texts(r@) == line_payloads(lines(text@)),
{
    let c = chars_of(text);
    let n = c.len();
    let mut out: Vec<String> = Vec::new();
    let mut pos: usize = 0;
    assert(c@.skip(0) =~= c@);
    while pos < n
        invariant
            pos <= n,
            n == c.len(),
            c@ == text@,
            texts(out@) + line_payloads(lines(c@.skip(pos as int))) == line_payloads(lines(c@)),
        decreases n - pos,
    {
        let (end, nl) = next_line(&c, pos);
        let line = string_of(&slice_chars(&c, pos, end));
        let ghost before = texts(out@);
        let ghost ls = lines(c@.skip(pos as int));
        let p = sse_data(line.as_str());
        let ghost head: Seq<Seq<char>> = match sse_payload(ls[0]) {
            Some(x) => seq![x],
            None => Seq::empty(),
        };
        match p {
            Some(x) => {
                out.push(x);
                assert(texts(out@) =~= before + head);
            },
            None => {
                assert(texts(out@) =~= before + head);
            },
        }
        proof {
            assert(line_payloads(ls) =~= head + line_payloads(ls.drop_first()));
            assert(before + (head + line_payloads(ls.drop_first())) =~= before + head + line_payloads(
                ls.drop_first(),
            ));
        }
        if nl == n {
            proof {
                assert(ls.drop_first() =~= Seq::<Seq<char>>::empty());
                assert(texts(out@) + Seq::<Seq<char>>::empty() =~= texts(out@));
            }
            return out;
        }
        pos = nl + 1;
    }
    proof {
        assert(c@.skip(n as int) =~= Seq::<char>::empty());
        assert(texts(out@) + Seq::<Seq<char>>::empty() =~= texts(out@));
    }
    out
}

/// The JSON payloads of one streamed event: its `data: ` lines.
pub fn event_payloads(event: &str) -> (r: Vec<String>)
    ensures
        texts(r@) == event_data(lines(event@)),
{
    let c = chars_of(event);
    let n = c.len();
    let prefix = chars_of("data: ");
    proof {
        reveal_strlit("data: ");
    }
    let mut out: Vec<String> = Vec::new();
    let mut pos: usize = 0;
    assert(c@.skip(0) =~= c@);
    while pos < n
        invariant
            pos <= n,
            n == c.len(),
            c@ == event@,
            prefix@ == "data: "@,
            prefix@.len() == 6,
            texts(out@) + event_data(lines(c@.skip(pos as int))) == event_data(lines(c@)),
        decreases n - pos,
    {
        let (end, nl) = next_line(&c, pos);
        let line = slice_chars(&c, pos, end);
        let ghost before = texts(out@);
        let ghost ls = lines(c@.skip(pos as int));
        let ghost head: Seq<Seq<char>> = if has_prefix(ls[0], "data: "@) {
            seq![ls[0].skip(6)]
        } else {
            Seq::empty()
        };
        if starts_with_chars(&line, &prefix) {
            let rest = slice_chars(&line, 6, line.len());
            assert(rest@ =~= line@.skip(6));
            out.push(string_of(&rest));
            assert(texts(out@) =~= before + head);
        } else {
            assert(texts(out@) =~= before + head);
        }
        proof {
            assert(event_data(ls) =~= head + event_data(ls.drop_first()));
            assert(before + (head + event_data(ls.drop_first())) =~= before + head + event_data(
                ls.drop_first(),
            ));
        }
        if nl == n {
            proof {
                assert(ls.drop_first() =~= Seq::<Seq<char>>::empty());
                assert(texts(out@) + Seq::<Seq<char>>::empty() =~= texts(out@));
            }
            return out;
        }
        pos = nl + 1;
    }
    proof {
        assert(c@.skip(n as int) =~= Seq::<char>::empty());
        assert(texts(out@) + Seq::<Seq<char>>::empty() =~= texts(out@));
    }
    out
}

// ───────────────────────── streamed payloads ─────────────────────────

/// What a streamed line's JSON payload holds at the places the providers
/// read (see `AnswerView`): nothing when the payload is not JSON; a place
/// that holds no string reads as absent.
pub uninterp spec fn answer_fields_of(payload: Seq<char>) -> Option<AnswerView>;

/// What an Anthropic event's JSON payload holds as (`type`, `delta.text`):
/// nothing when the payload is not JSON; a place that holds no string
/// reads as absent.
pub uninterp spec fn anthropic_event_of(payload: Seq<char>) -> Option<(Option<Seq<char>>, Option<Seq<char>>)>;

/// The answer's fields, if any, by their characters.
pub open spec fn opt_answer_view(r: Option<AnswerFields>) -> Option<AnswerView> {
    match r {
        Some(f) => Some(answer_view(f)),
        None => None,
    }
}

/// `serde_json::from_str::<Value>` on a payload, then the strings at
/// `choices[0].delta.content`, `choices[0].message.content`,
/// `content[0].text`, `choices[0].delta.reasoning_content`,
/// `choices[0].message.reasoning_content`, `choices[0].finish_reason` and
/// `stop_reason` (`Value::as_str`). The contract claims that the outcome is
/// a function of the payload; the JSON grammar is not stated.
#[verifier::external_body]
fn parse_answer_fields(payload: &str) -> (r: Option<AnswerFields>)
    ensures
        opt_answer_view(r) == answer_fields_of(payload@),
{
    let d: serde_json::Value = serde_json::from_str(payload).ok()?;
    let c = &d["choices"][0];
    Some(AnswerFields {
        delta_content: c["delta"]["content"].as_str().map(String::from),
        message_content: c["message"]["content"].as_str().map(String::from),
        block_text: d["content"][0]["text"].as_str().map(String::from),
        delta_reasoning: c["delta"]["reasoning_content"].as_str().map(String::from),
        message_reasoning: c["message"]["reasoning_content"].as_str().map(String::from),
        finish_reason: c["finish_reason"].as_str().map(String::from),
        stop_reason: d["stop_reason"].as_str().map(String::from),
    })
}

/// `serde_json::from_str::<Value>` on an Anthropic event payload, then the
/// strings at `type` and `delta.text` (`Value::as_str`). The contract
/// claims that the outcome is a function of the payload; the JSON grammar
/// is not stated.
#[verifier::external_body]
fn parse_anthropic_event(payload: &str) -> (r: Option<(Option<String>, Option<String>)>)
    ensures
        match r {
            Some((t, x)) => anthropic_event_of(payload@) == Some((opt_text(t), opt_text(x))),
            None => anthropic_event_of(payload@) is None,
        },
{
    let v: serde_json::Value = serde_json::from_str(payload).ok()?;
    Some((v["type"].as_str().map(String::from), v["delta"]["text"].as_str().map(String::from)))
}

/// The chunk a streamed line's payload yields for a provider of kind
/// `kind` that streams lines: none when the payload is not JSON, otherwise
/// as `line_chunk` says for the fields it holds.
pub open spec fn payload_chunk(k: ProviderKind, payload: Seq<char>) -> Option<(Seq<char>, Option<Seq<char>>)> {
    match answer_fields_of(payload) {
        Some(v) => line_chunk_view(k, v),
        None => None,
    }
}

/// Decodes one streamed line's payload into its chunk.
pub fn chunk_of_payload(kind: ProviderKind, payload: &str) -> (r: Option<StreamChunk>)
    ensures
        match r {
            Some(c) => payload_chunk(kind, payload@) == Some((c.content@, opt_text(c.finish_reason))),
            None => payload_chunk(kind, payload@) is None,
        },
{
    match parse_answer_fields(payload) {
        Some(f) => stream_chunk(kind, f),
        None => None,
    }
}

/// The chunk an Anthropic event payload yields: none when the payload is
/// not JSON, otherwise as `anthropic_event_chunk` says for its type and
/// text.
pub open spec fn event_payload_chunk(payload: Seq<char>) -> Option<(Seq<char>, Option<Seq<char>>)> {
    match anthropic_event_of(payload) {
        Some((t, x)) => anthropic_event_chunk(t, x),
        None => None,
    }
}

/// Decodes one Anthropic event payload into its chunk.
pub fn chunk_of_event_payload(payload: &str) -> (r: Option<StreamChunk>)
    ensures
        match r {
            Some(c) => event_payload_chunk(payload@) == Some((c.content@, opt_text(c.finish_reason))),
            None => event_payload_chunk(payload@) is None,
        },
{
    match parse_anthropic_event(payload) {
        Some((t, x)) => anthropic_chunk(t, x),
        None => None,
    }
}

/// Decodes the JSON body of a complete answer into the reply a provider of
/// kind `kind` makes of it (see `chat_response`); nothing when the body is
/// not JSON.
pub fn chat_response_of_body(kind: ProviderKind, body: &str) -> (r: Option<ChatResponse>)
    ensures
        match answer_fields_of(body@) {
            None => r is None,
            Some(v) => r matches Some(c) && c.content@ == or_empty(answer_content_view(kind, v))
                && opt_text(c.reasoning_content) == answer_reasoning_view(kind, v) && opt_text(c.finish_reason)
                == answer_finish_view(kind, v) && c.usage is None,
        },
{
    match parse_answer_fields(body) {
        Some(f) => Some(chat_response(kind, f)),
        None => None,
    }
}

} // verus!
