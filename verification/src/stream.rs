//! Streamed answers: the lines and events of a server-sent event stream,
//! and the chunks that the providers' stream events yield.
use vstd::prelude::*;
use crate::models::StreamChunk;
use crate::text::{chars_of, has_prefix, str_eq, string_of, trim, trim_chars};

verus! {

/// The payload of one line of a server-sent event stream: the line is
/// trimmed, blank lines and the `data: [DONE]` terminator carry none, and
/// otherwise the payload is what follows `data: `.
pub open spec fn sse_payload(line: Seq<char>) -> Option<Seq<char>> {
    let t = trim(line);
    if t.len() == 0 || t == "data: [DONE]"@ {
        None
    } else if has_prefix(t, "data: "@) {
        Some(t.skip(6))
    } else {
        None
    }
}

/// Extracts the JSON payload of one line of a streamed answer.
pub fn sse_data(line: &str) -> (r: Option<String>)
    ensures
        match r {
            Some(p) => sse_payload(line@) == Some(p@),
            None => sse_payload(line@) is None,
        },
{
    let raw = chars_of(line);
    let t = trim_chars(&raw);
    if t.len() == 0 {
        return None;
    }
    let done = chars_of("data: [DONE]");
    proof {
        reveal_strlit("data: [DONE]");
        reveal_strlit("data: ");
    }
    if crate::text::chars_eq(&t, &done) {
        return None;
    }
    let prefix = chars_of("data: ");
    if crate::text::starts_with_chars(&t, &prefix) {
        let rest = crate::text::slice_chars(&t, 6, t.len());
        assert(rest@ =~= t@.skip(6));
        Some(string_of(&rest))
    } else {
        None
    }
}

/// What a streamed chunk shows: where the model sent reasoning, the
/// reasoning and the answer under their two headings; otherwise the answer.
pub open spec fn with_reasoning(reasoning: Seq<char>, content: Seq<char>) -> Seq<char> {
    if reasoning.len() > 0 {
        "[思考]\n"@ + reasoning + "\n[回答]\n"@ + content
    } else {
        content
    }
}

/// Joins a chunk's reasoning and answer for display.
pub fn combine_reasoning(reasoning: &str, content: &str) -> (r: String)
    ensures
        r@ == with_reasoning(reasoning@, content@),
{
    let rv = chars_of(reasoning);
    if rv.len() > 0 {
        let mut v = chars_of("[思考]\n");
        crate::text::extend_chars(&mut v, &rv);
        crate::text::extend_str(&mut v, "\n[回答]\n");
        crate::text::extend_str(&mut v, content);
        string_of(&v)
    } else {
        content.to_owned()
    }
}


/// The blank line that ends an event.
pub open spec fn blank_line() -> Seq<char> {
    seq!['\n', '\n']
}

/// The first position at or after `i` where a blank line (`\n\n`)
/// starts, or `s.len()` when there is none.
pub open spec fn blank_from(s: Seq<char>, i: int) -> int
    decreases s.len() - i,
{
    if i < 0 || i + 1 >= s.len() {
        s.len() as int
    } else if s[i] == '\n' && s[i + 1] == '\n' {
        i
    } else {
        blank_from(s, i + 1)
    }
}

proof fn lemma_blank_from(s: Seq<char>, i: int)
    requires
        0 <= i,
    ensures
        blank_from(s, i) == s.len() || (i <= blank_from(s, i) && blank_from(s, i) + 2 <= s.len()
            && s[blank_from(s, i)] == '\n' && s[blank_from(s, i) + 1] == '\n'),
    decreases s.len() - i,
{
    if i + 1 < s.len() && !(s[i] == '\n' && s[i + 1] == '\n') {
        lemma_blank_from(s, i + 1);
    }
}

/// The complete events at the front of a server-sent event stream: each
/// event ends at the first blank line (`\n\n`) after it, which is not part
/// of it.
pub open spec fn sse_events(s: Seq<char>) -> Seq<Seq<char>>
    decreases s.len(),
{
    let i = blank_from(s, 0);
    if 0 <= i && i + 2 <= s.len() {
        seq![s.take(i)] + sse_events(s.skip(i + 2))
    } else {
        seq![]
    }
}

/// What follows the last complete event: the start of an event not yet
/// terminated.
pub open spec fn sse_rest(s: Seq<char>) -> Seq<char>
    decreases s.len(),
{
    let i = blank_from(s, 0);
    if 0 <= i && i + 2 <= s.len() {
        sse_rest(s.skip(i + 2))
    } else {
        s
    }
}

/// The events written back out, each followed by its blank line.
pub open spec fn join_events(es: Seq<Seq<char>>) -> Seq<char>
    decreases es.len(),
{
    if es.len() == 0 {
        seq![]
    } else {
        es[0] + blank_line() + join_events(es.drop_first())
    }
}

/// Splitting loses nothing: the events, each with its blank line, followed
/// by the unterminated rest, give back the stream.
pub proof fn lemma_sse_split_lossless(s: Seq<char>)
    ensures
        join_events(sse_events(s)) + sse_rest(s) == s,
    decreases s.len(),
{
    let i = blank_from(s, 0);
    lemma_blank_from(s, 0);
    if 0 <= i && i + 2 <= s.len() {
        let t = s.skip(i + 2);
        lemma_sse_split_lossless(t);
        let es = sse_events(s);
        assert(es.drop_first() =~= sse_events(t));
        assert(s =~= s.take(i) + blank_line() + t);
        assert(join_events(es) + sse_rest(s) =~= s.take(i) + blank_line() + (join_events(sse_events(t)) + sse_rest(t)));
    }
}

/// No rest of a split holds a blank line: every complete event was taken out.
pub proof fn lemma_sse_rest_has_no_blank(s: Seq<char>)
    ensures
        blank_from(sse_rest(s), 0) == sse_rest(s).len(),
    decreases s.len(),
{
    let i = blank_from(s, 0);
    lemma_blank_from(s, 0);
    if 0 <= i && i + 2 <= s.len() {
        lemma_sse_rest_has_no_blank(s.skip(i + 2));
    }
}

proof fn lemma_blank_from_extend(s: Seq<char>, t: Seq<char>, i: int)
    requires
        0 <= i,
        blank_from(s, i) + 2 <= s.len(),
    ensures
        blank_from(s + t, i) == blank_from(s, i),
    decreases s.len() - i,
{
    let u = s + t;
    assert(u[i] == s[i]);
    assert(u[i + 1] == s[i + 1]);
    if !(s[i] == '\n' && s[i + 1] == '\n') {
        lemma_blank_from_extend(s, t, i + 1);
    }
}

/// Where a stream is cut into pieces does not matter: the events of the
/// whole are the events of the first piece followed by the events of what
/// it left over joined to the second piece, and the two leave the same
/// rest.
pub proof fn lemma_sse_pieces(s1: Seq<char>, s2: Seq<char>)
    ensures
        sse_events(s1 + s2) == sse_events(s1) + sse_events(sse_rest(s1) + s2),
        sse_rest(s1 + s2) == sse_rest(sse_rest(s1) + s2),
    decreases s1.len(),
{
    let i = blank_from(s1, 0);
    lemma_blank_from(s1, 0);
    if 0 <= i && i + 2 <= s1.len() {
        let t1 = s1.skip(i + 2);
        lemma_blank_from_extend(s1, s2, 0);
        let u = s1 + s2;
        assert(u.take(i) =~= s1.take(i));
        assert(u.skip(i + 2) =~= t1 + s2);
        lemma_sse_pieces(t1, s2);
        assert(sse_events(u) == seq![s1.take(i)] + sse_events(t1 + s2));
        assert(sse_events(s1) == seq![s1.take(i)] + sse_events(t1));
        assert(sse_events(u) =~= sse_events(s1) + sse_events(sse_rest(s1) + s2));
    } else {
        assert(sse_events(s1) =~= seq![]);
        assert(sse_events(s1) + sse_events(sse_rest(s1) + s2) =~= sse_events(s1 + s2));
    }
}

fn find_blank(v: &Vec<char>) -> (r: usize)
    ensures
        r == blank_from(v@, 0),
{
    let mut i: usize = 0;
    while i < v.len() && i + 1 < v.len() && !(v[i] == '\n' && v[i + 1] == '\n')
        invariant
            i <= v.len(),
            blank_from(v@, 0) == blank_from(v@, i as int),
        decreases v.len() - i,
    {
        i = i + 1;
    }
    if i < v.len() && i + 1 < v.len() {
        i
    } else {
        v.len()
    }
}

/// A buffer that cuts a server-sent event stream, arriving in arbitrary
/// pieces, into complete events.
pub struct SseBuffer {
    buffer: Vec<char>,
}

impl SseBuffer {
    /// What has arrived and does not yet form a complete event.
    pub closed spec fn pending(self) -> Seq<char> {
        self.buffer@
    }

    /// An empty buffer.
    pub fn new() -> (r: Self)
        ensures
            r.pending().len() == 0,
    {
        SseBuffer { buffer: Vec::new() }
    }

    /// Appends a piece of the stream and takes out every event it completes.
    pub fn push(&mut self, text: &str) -> (events: Vec<String>)
        ensures
            events@.map_values(|e: String| e@) == sse_events(old(self).pending() + text@),
            final(self).pending() == sse_rest(old(self).pending() + text@),
    {
        crate::text::extend_str(&mut self.buffer, text);
        let ghost whole = self.buffer@;
        let mut events: Vec<String> = Vec::new();
        assert(events@.map_values(|e: String| e@) + sse_events(self.buffer@) =~= sse_events(whole));
        loop
            invariant
                events@.map_values(|e: String| e@) + sse_events(self.buffer@) == sse_events(whole),
                sse_rest(self.buffer@) == sse_rest(whole),
            ensures
                events@.map_values(|e: String| e@) == sse_events(whole),
                self.buffer@ == sse_rest(whole),
            decreases self.buffer@.len(),
        {
            let pos = find_blank(&self.buffer);
            let ghost b = self.buffer@;
            proof {
                lemma_blank_from(b, 0);
            }
            if pos < self.buffer.len() {
                let ev = crate::text::slice_chars(&self.buffer, 0, pos);
                let rest = crate::text::slice_chars(&self.buffer, pos + 2, self.buffer.len());
                assert(ev@ =~= b.take(pos as int));
                assert(rest@ =~= b.skip(pos + 2));
                let ghost before = events@.map_values(|e: String| e@);
                let e = string_of(&ev);
                events.push(e);
                assert(events@.map_values(|e: String| e@) =~= before.push(b.take(pos as int)));
                self.buffer = rest;
                assert(events@.map_values(|e: String| e@) + sse_events(self.buffer@)
                    =~= before + sse_events(b));
            } else {
                assert(sse_events(b) =~= seq![]);
                assert(sse_rest(b) == b);
                assert(events@.map_values(|e: String| e@) =~= sse_events(whole));
                break;
            }
        }
        events
    }
}

/// The chunk a streamed OpenAI-style delta yields: its answer text (empty
/// when absent) joined with its reasoning when there is any, and its
/// finish reason.
pub open spec fn delta_chunk_content(content: Option<Seq<char>>, reasoning: Option<Seq<char>>) -> Seq<char> {
    with_reasoning(
        match reasoning { Some(r) => r, None => seq![] },
        match content { Some(c) => c, None => seq![] },
    )
}

/// Builds the chunk for one streamed OpenAI-style delta.
pub fn delta_chunk(content: Option<String>, reasoning: Option<String>, finish_reason: Option<String>) -> (r: StreamChunk)
    ensures
        r.content@ == delta_chunk_content(
            match content { Some(c) => Some(c@), None => None },
            match reasoning { Some(x) => Some(x@), None => None },
        ),
        r.finish_reason == finish_reason,
{
    let c = match content { Some(c) => c, None => String::new() };
    let x = match reasoning { Some(x) => x, None => String::new() };
    StreamChunk { content: combine_reasoning(x.as_str(), c.as_str()), finish_reason }
}

/// The chunk an Anthropic stream event yields: the text of a
/// `content_block_delta` that carries text, an empty chunk finished with
/// `stop` for `message_stop`, and nothing for any other event.
pub open spec fn anthropic_event_chunk(event_type: Option<Seq<char>>, text: Option<Seq<char>>) -> Option<(Seq<char>, Option<Seq<char>>)> {
    if event_type == Some("content_block_delta"@) {
        match text {
            Some(x) => Some((x, None)),
            None => None,
        }
    } else if event_type == Some("message_stop"@) {
        Some((seq![], Some("stop"@)))
    } else {
        None
    }
}

/// Builds the chunk, if any, for one Anthropic stream event.
pub fn anthropic_chunk(event_type: Option<String>, text: Option<String>) -> (r: Option<StreamChunk>)
    ensures
        match r {
            Some(c) => anthropic_event_chunk(
                match event_type { Some(t) => Some(t@), None => None },
                match text { Some(x) => Some(x@), None => None },
            ) == Some((c.content@, match c.finish_reason { Some(f) => Some(f@), None => None })),
            None => anthropic_event_chunk(
                match event_type { Some(t) => Some(t@), None => None },
                match text { Some(x) => Some(x@), None => None },
            ) is None,
        },
{
    match event_type {
        Some(t) => {
            if str_eq(t.as_str(), "content_block_delta") {
                match text {
                    Some(x) => Some(StreamChunk { content: x, finish_reason: None }),
                    None => None,
                }
            } else if str_eq(t.as_str(), "message_stop") {
                Some(StreamChunk { content: String::new(), finish_reason: Some("stop".to_owned()) })
            } else {
                None
            }
        },
        None => None,
    }
}

/// The first of several candidate texts that is present: the answer of a
/// response is read from the first place that holds one.
pub open spec fn first_present(cands: Seq<Option<Seq<char>>>) -> Option<Seq<char>>
    decreases cands.len(),
{
    if cands.len() == 0 {
        None
    } else if cands[0] is Some {
        cands[0]
    } else {
        first_present(cands.drop_first())
    }
}

/// Picks the first candidate text that is present.
pub fn first_text(cands: Vec<Option<String>>) -> (r: Option<String>)
    ensures
        match r {
            Some(t) => first_present(cands@.map_values(|c: Option<String>| match c { Some(x) => Some(x@), None => None })) == Some(t@),
            None => first_present(cands@.map_values(|c: Option<String>| match c { Some(x) => Some(x@), None => None })) is None,
        },
{
    let ghost all = cands@.map_values(|c: Option<String>| match c { Some(x) => Some(x@), None => None });
    let mut i: usize = 0;
    assert(all.skip(0) =~= all);
    while i < cands.len()
        invariant
            i <= cands@.len(),
            all == cands@.map_values(|c: Option<String>| match c { Some(x) => Some(x@), None => None }),
            first_present(all.skip(i as int)) == first_present(all),
        decreases cands@.len() - i,
    {
        assert(all.skip(i as int).drop_first() =~= all.skip(i + 1));
        match &cands[i] {
            Some(t) => {
                return Some(t.clone());
            },
            None => {},
        }
        i = i + 1;
    }
    None
}

} // verus!
