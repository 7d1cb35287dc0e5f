use bugs::models::{moonshot_thinking, ThinkingMode};
use bugs::stream::{anthropic_chunk, combine_reasoning, delta_chunk, first_text, sse_data, SseBuffer};

#[test]
fn sse_lines() {
    assert_eq!(sse_data("data: {\"a\":1}").as_deref(), Some("{\"a\":1}"));
    assert_eq!(sse_data("  data: x  \r").as_deref(), Some("x"));
    assert_eq!(sse_data("data: [DONE]"), None);
    assert_eq!(sse_data("   "), None);
    assert_eq!(sse_data("event: ping"), None);
}

#[test]
fn reasoning_is_shown_before_the_answer() {
    assert_eq!(combine_reasoning("think", "answer"), "[思考]\nthink\n[回答]\nanswer");
    assert_eq!(combine_reasoning("", "answer"), "answer");
    let c = delta_chunk(Some("a".into()), None, Some("stop".into()));
    assert_eq!(c.content, "a");
    assert_eq!(c.finish_reason.as_deref(), Some("stop"));
    let c2 = delta_chunk(None, Some("r".into()), None);
    assert_eq!(c2.content, "[思考]\nr\n[回答]\n");
}

#[test]
fn sse_buffer_cuts_events_across_pieces() {
    let mut b = SseBuffer::new();
    assert!(b.push("data: one\n").is_empty());
    assert_eq!(b.push("\ndata: two\n\ndata: th"), vec!["data: one", "data: two"]);
    assert!(b.push("ree").is_empty());
    assert_eq!(b.push("\n\n\n\n"), vec!["data: three", ""]);
}

#[test]
fn anthropic_events() {
    let c = anthropic_chunk(Some("content_block_delta".into()), Some("hi".into())).unwrap();
    assert_eq!(c.content, "hi");
    assert!(c.finish_reason.is_none());
    let stop = anthropic_chunk(Some("message_stop".into()), None).unwrap();
    assert_eq!(stop.content, "");
    assert_eq!(stop.finish_reason.as_deref(), Some("stop"));
    assert!(anthropic_chunk(Some("content_block_delta".into()), None).is_none());
    assert!(anthropic_chunk(Some("ping".into()), Some("x".into())).is_none());
    assert!(anthropic_chunk(None, Some("x".into())).is_none());
}

#[test]
fn first_present_candidate() {
    assert_eq!(first_text(vec![None, Some("b".into()), Some("c".into())]).as_deref(), Some("b"));
    assert_eq!(first_text(vec![None, None]), None);
}

#[test]
fn kimi_k2_always_thinks() {
    assert_eq!(moonshot_thinking("kimi-k2-0711", &None).as_deref(), Some("enabled"));
    let t = Some(ThinkingMode { mode: "disabled".into() });
    assert_eq!(moonshot_thinking("kimi-k2", &t).as_deref(), Some("disabled"));
    assert_eq!(moonshot_thinking("moonshot-v1", &t), None);
}

#[test]
fn cutting_a_stream_anywhere_gives_the_same_events() {
    let whole = "data: a\n\ndata: bb\n\n\n\ndata: c";
    let mut reference = SseBuffer::new();
    let expected = reference.push(whole);
    for cut in 0..=whole.len() {
        if !whole.is_char_boundary(cut) {
            continue;
        }
        let mut b = SseBuffer::new();
        let mut got = b.push(&whole[..cut]);
        got.extend(b.push(&whole[cut..]));
        assert_eq!(got, expected);
    }
    assert_eq!(expected, vec!["data: a", "data: bb", ""]);
}
