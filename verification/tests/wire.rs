use bugs::models::{DeepSeekApiFormat, Message, MinimaxAuthMode, ProviderKind, ReasoningEffort, Role, ThinkingMode};
use bugs::wire::{
    chat_response, chat_response_of_body, chunk_of_event_payload, chunk_of_payload, event_payloads, line_payloads_of, request_body, stream_chunk, streams_events, AnswerFields,
    TemperatureField,
};

fn conversation() -> Vec<Message> {
    vec![
        Message { role: Role::System, content: "be brief".into() },
        Message { role: Role::User, content: "hi".into() },
        Message { role: Role::System, content: "second".into() },
        Message { role: Role::Assistant, content: "hello".into() },
    ]
}

fn pairs(v: &[(String, String)]) -> Vec<(&str, &str)> {
    v.iter().map(|(a, b)| (a.as_str(), b.as_str())).collect()
}

fn empty_fields() -> AnswerFields {
    AnswerFields {
        delta_content: None,
        message_content: None,
        block_text: None,
        delta_reasoning: None,
        message_reasoning: None,
        finish_reason: None,
        stop_reason: None,
    }
}

#[test]
fn openai_body_sends_every_message() {
    let b = request_body(ProviderKind::OpenAi, "gpt-4o", &conversation(), None, &None, None, false);
    assert_eq!(b.model, "gpt-4o");
    assert_eq!(
        pairs(&b.messages),
        vec![("system", "be brief"), ("user", "hi"), ("system", "second"), ("assistant", "hello")]
    );
    assert_eq!(b.system, None);
    assert_eq!(b.max_tokens, 4096);
    assert_eq!(b.temperature, TemperatureField::GivenOrDefault);
    assert_eq!(b.thinking, None);
    assert_eq!(b.reasoning_effort, None);
    assert_eq!(b.output_effort, None);
    assert!(!b.stream);
}

#[test]
fn anthropic_body_lifts_the_first_system_message() {
    let b = request_body(ProviderKind::Anthropic, "model-a", &conversation(), Some(100), &None, None, true);
    assert_eq!(pairs(&b.messages), vec![("user", "hi"), ("assistant", "hello")]);
    assert_eq!(b.system.as_deref(), Some("be brief"));
    assert_eq!(b.max_tokens, 100);
    assert_eq!(b.temperature, TemperatureField::WhenGiven);
    assert!(b.stream);
}

#[test]
fn deepseek_bodies_carry_the_effort() {
    let b = request_body(ProviderKind::DeepSeek(DeepSeekApiFormat::OpenAi), "deepseek-chat", &conversation(), None, &None, None, false);
    assert_eq!(b.thinking.as_deref(), Some("enabled"));
    assert_eq!(b.reasoning_effort.as_deref(), Some("high"));
    assert_eq!(b.output_effort, None);
    assert_eq!(b.messages.len(), 4);
    let a = request_body(
        ProviderKind::DeepSeek(DeepSeekApiFormat::Anthropic),
        "deepseek-chat",
        &conversation(),
        None,
        &None,
        Some(ReasoningEffort::Max),
        false,
    );
    assert_eq!(a.output_effort.as_deref(), Some("max"));
    assert_eq!(a.reasoning_effort, None);
    assert_eq!(a.thinking, None);
    assert_eq!(a.temperature, TemperatureField::Omitted);
    assert_eq!(a.system.as_deref(), Some("be brief"));
    assert_eq!(a.messages.len(), 2);
}

#[test]
fn moonshot_body_thinks_for_kimi_k2() {
    let b = request_body(ProviderKind::Moonshot, "kimi-k2-0711", &vec![], None, &None, None, false);
    assert_eq!(b.thinking.as_deref(), Some("enabled"));
    let off = Some(ThinkingMode { mode: "disabled".into() });
    let c = request_body(ProviderKind::Moonshot, "kimi-k2-0711", &vec![], None, &off, None, false);
    assert_eq!(c.thinking.as_deref(), Some("disabled"));
    let d = request_body(ProviderKind::Moonshot, "moonshot-v1-8k", &vec![], None, &off, None, false);
    assert_eq!(d.thinking, None);
}

#[test]
fn answers_are_read_where_each_provider_puts_them() {
    let mut f = empty_fields();
    f.delta_content = Some("delta".into());
    f.message_content = Some("message".into());
    f.block_text = Some("block".into());
    f.message_reasoning = Some("why".into());
    f.finish_reason = Some("stop".into());
    f.stop_reason = Some("end_turn".into());

    let openai = chat_response(ProviderKind::OpenAi, f.clone());
    assert_eq!(openai.content, "delta");
    assert_eq!(openai.reasoning_content.as_deref(), Some("why"));
    assert_eq!(openai.finish_reason.as_deref(), Some("stop"));

    let anthropic = chat_response(ProviderKind::Anthropic, f.clone());
    assert_eq!(anthropic.content, "block");
    assert_eq!(anthropic.reasoning_content, None);
    assert_eq!(anthropic.finish_reason.as_deref(), Some("end_turn"));

    let moonshot = chat_response(ProviderKind::Moonshot, f.clone());
    assert_eq!(moonshot.content, "message");
    assert_eq!(moonshot.finish_reason, None);

    let minimax = chat_response(ProviderKind::Minimax(MinimaxAuthMode::Token), f.clone());
    assert_eq!(minimax.content, "message");
    assert_eq!(minimax.finish_reason.as_deref(), Some("stop"));

    let mut g = empty_fields();
    g.block_text = Some("block".into());
    let deepseek = chat_response(ProviderKind::DeepSeek(DeepSeekApiFormat::Anthropic), g.clone());
    assert_eq!(deepseek.content, "block");
    assert_eq!(deepseek.finish_reason, None);
    assert_eq!(chat_response(ProviderKind::Zhipu, g).content, "");
}

#[test]
fn streamed_lines_become_chunks() {
    let mut f = empty_fields();
    f.delta_content = Some("a".into());
    f.delta_reasoning = Some("r".into());
    f.finish_reason = Some("stop".into());
    let d = stream_chunk(ProviderKind::DeepSeek(DeepSeekApiFormat::OpenAi), f.clone()).unwrap();
    assert_eq!(d.content, "[思考]\nr\n[回答]\na");
    assert_eq!(d.finish_reason.as_deref(), Some("stop"));
    let m = stream_chunk(ProviderKind::Moonshot, f.clone()).unwrap();
    assert_eq!(m.content, "a");
    let o = stream_chunk(ProviderKind::Alibaba, f.clone()).unwrap();
    assert_eq!(o.content, "[思考]\nr\n[回答]\na");
    assert!(stream_chunk(ProviderKind::Anthropic, f).is_none());
    assert!(streams_events(ProviderKind::Anthropic));
    assert!(!streams_events(ProviderKind::DeepSeek(DeepSeekApiFormat::Anthropic)));
}

#[test]
fn stream_payloads_are_cut_from_lines_and_events() {
    let lines = line_payloads_of("data: {\"a\":1}\r\n\n: keep-alive\n  data: two \ndata: [DONE]\n");
    assert_eq!(lines, vec!["{\"a\":1}", "two"]);
    let ev = event_payloads("event: content_block_delta\ndata: {\"x\":1}\r\ndata: more");
    assert_eq!(ev, vec!["{\"x\":1}", "more"]);
    assert!(event_payloads("").is_empty());
}

#[test]
fn payloads_decode_into_chunks() {
    let p = r#"{"choices":[{"delta":{"content":"hi","reasoning_content":"why"},"finish_reason":null}]}"#;
    let c = chunk_of_payload(ProviderKind::DeepSeek(DeepSeekApiFormat::OpenAi), p).unwrap();
    assert_eq!(c.content, "[思考]\nwhy\n[回答]\nhi");
    assert_eq!(c.finish_reason, None);
    let m = chunk_of_payload(ProviderKind::Moonshot, p).unwrap();
    assert_eq!(m.content, "hi");
    let done = r#"{"choices":[{"delta":{},"finish_reason":"stop"}]}"#;
    let d = chunk_of_payload(ProviderKind::OpenAi, done).unwrap();
    assert_eq!((d.content.as_str(), d.finish_reason.as_deref()), ("", Some("stop")));
    assert!(chunk_of_payload(ProviderKind::OpenAi, "not json").is_none());
    assert!(chunk_of_payload(ProviderKind::Anthropic, p).is_none());

    let e = chunk_of_event_payload(r#"{"type":"content_block_delta","delta":{"text":"abc"}}"#).unwrap();
    assert_eq!(e.content, "abc");
    let s = chunk_of_event_payload(r#"{"type":"message_stop"}"#).unwrap();
    assert_eq!(s.finish_reason.as_deref(), Some("stop"));
    assert!(chunk_of_event_payload(r#"{"type":"ping"}"#).is_none());
    assert!(chunk_of_event_payload("{").is_none());
}

#[test]
fn complete_answers_decode_into_replies() {
    let body = r#"{"content":[{"text":"block"}],"stop_reason":"end_turn","choices":[{"message":{"content":"msg"},"finish_reason":"stop"}]}"#;
    let a = chat_response_of_body(ProviderKind::Anthropic, body).unwrap();
    assert_eq!((a.content.as_str(), a.finish_reason.as_deref()), ("block", Some("end_turn")));
    let o = chat_response_of_body(ProviderKind::OpenAi, body).unwrap();
    assert_eq!((o.content.as_str(), o.finish_reason.as_deref()), ("msg", Some("stop")));
    assert!(chat_response_of_body(ProviderKind::OpenAi, "<html>").is_none());
}
