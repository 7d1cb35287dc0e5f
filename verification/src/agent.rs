//! The Overmind's own logic: splitting a model's answer into sub-tasks,
//! queueing them for sub-agents, and writing the final report of their
//! results.
use vstd::prelude::*;
use crate::clock::secs;
use crate::models::{model_error_text, msg_view, Message, ModelError, Role};
use crate::scheduler::{Scheduler, bucket_of, queued_form};
use crate::text::{
    chars_of, concat, decimal, decimal_chars, extend_chars, extend_str, lines, next_line, string_of, trim,
    trim_chars,
};
use crate::types::{Priority, Task, TaskKind, TaskState};

verus! {

/// Who an agent is.
#[derive(Debug, Clone)]
pub struct AgentIdentity {
    pub name: String,
    pub kind: AgentKind,
}

/// The Overmind, or one of its sub-agents.
#[derive(Debug, Clone, Copy, PartialEq, Eq, Structural)]
pub enum AgentKind {
    Main,
    SubAgent,
}

/// What a sub-agent reported for one sub-task.
#[derive(Debug, Clone)]
pub struct SubAgentResult {
    pub task_id: u64,
    pub subtask: String,
    pub result: String,
    pub success: bool,
}

/// The Overmind's identity: named "Overmind", the main agent.
pub fn overmind_identity() -> (id: AgentIdentity)
    ensures
        id.name@ == "Overmind"@,
        id.kind == AgentKind::Main,
{
    AgentIdentity { name: "Overmind".to_owned(), kind: AgentKind::Main }
}

// ───────────────────────── splitting an answer into sub-tasks ─────────────────────────

/// `char::is_numeric`: whether the character has a Unicode numeric general
/// category (Nd, Nl or No).
pub uninterp spec fn numeric_char(c: char) -> bool;

/// `char::is_numeric`.
#[verifier::external_body]
fn is_numeric(c: char) -> (b: bool)
    ensures
        b == numeric_char(c),
{
    c.is_numeric()
}

/// A character that list markers are made of: numerals, `.`, `-` and space.
pub open spec fn is_marker(c: char) -> bool {
    numeric_char(c) || c == '.' || c == '-' || c == ' '
}

/// Whether `c` is a list marker character.
fn is_marker_char(c: char) -> (b: bool)
    ensures
        b == is_marker(c),
{
    is_numeric(c) || c == '.' || c == '-' || c == ' '
}

/// `s` without its leading marker characters.
pub open spec fn strip_markers(s: Seq<char>) -> Seq<char>
    decreases s.len(),
{
    if s.len() > 0 && is_marker(s[0]) {
        strip_markers(s.drop_first())
    } else {
        s
    }
}

/// A line as a sub-task: trimmed, then stripped of leading list markers.
pub open spec fn clean_line(l: Seq<char>) -> Seq<char> {
    strip_markers(trim(l))
}

/// The sub-tasks of a list of lines: each line cleaned, empty ones dropped.
pub open spec fn subtasks_of(ls: Seq<Seq<char>>) -> Seq<Seq<char>>
    decreases ls.len(),
{
    if ls.len() == 0 {
        Seq::empty()
    } else {
        let t = clean_line(ls[0]);
        (if t.len() > 0 { seq![t] } else { Seq::empty() }) + subtasks_of(ls.drop_first())
    }
}

proof fn lemma_strip_markers_head(s: Seq<char>)
    ensures
        strip_markers(s).len() > 0 ==> !is_marker(strip_markers(s)[0]),
        strip_markers(s).len() <= s.len(),
    decreases s.len(),
{
    if s.len() > 0 && is_marker(s[0]) {
        lemma_strip_markers_head(s.drop_first());
    }
}

/// Splitting an answer drops what cleans to nothing: every sub-task is
/// non-empty and starts with no list-marker character, and there are no
/// more sub-tasks than lines.
pub proof fn lemma_subtasks_are_clean(ls: Seq<Seq<char>>)
    ensures
        subtasks_of(ls).len() <= ls.len(),
        forall|k: int|
            0 <= k < subtasks_of(ls).len() ==> (#[trigger] subtasks_of(ls)[k]).len() > 0 && !is_marker(
                subtasks_of(ls)[k][0],
            ),
    decreases ls.len(),
{
    if ls.len() > 0 {
        let t = clean_line(ls[0]);
        let head: Seq<Seq<char>> = if t.len() > 0 { seq![t] } else { Seq::empty() };
        let rest = subtasks_of(ls.drop_first());
        lemma_subtasks_are_clean(ls.drop_first());
        lemma_strip_markers_head(trim(ls[0]));
        assert(subtasks_of(ls) == head + rest);
        assert forall|k: int| 0 <= k < subtasks_of(ls).len() implies (#[trigger] subtasks_of(ls)[k]).len()
            > 0 && !is_marker(subtasks_of(ls)[k][0]) by {
            if k < head.len() {
                assert(subtasks_of(ls)[k] == t);
            } else {
                assert(subtasks_of(ls)[k] == rest[k - head.len()]);
            }
        }
    }
}

/// A line that cleans to something is kept: the sub-tasks of a list of lines
/// whose first line cleans to a non-empty `t` begin with `t`, and those of
/// a list whose first line cleans to nothing are those of the rest.
pub proof fn lemma_subtasks_first_line(ls: Seq<Seq<char>>)
    requires
        ls.len() > 0,
    ensures
        clean_line(ls[0]).len() > 0 ==> subtasks_of(ls) == seq![clean_line(ls[0])] + subtasks_of(
            ls.drop_first(),
        ),
        clean_line(ls[0]).len() == 0 ==> subtasks_of(ls) == subtasks_of(ls.drop_first()),
{
    if clean_line(ls[0]).len() == 0 {
        assert(Seq::<Seq<char>>::empty() + subtasks_of(ls.drop_first()) =~= subtasks_of(ls.drop_first()));
    }
}

fn clean(line: &Vec<char>) -> (r: Vec<char>)
    ensures
        r@ == clean_line(line@),
{
    let t = trim_chars(line);
    let mut i: usize = 0;
    assert(t@.skip(0) =~= t@);
    while i < t.len() && is_marker_char(t[i])
        invariant
            i <= t.len(),
            strip_markers(t@) == strip_markers(t@.skip(i as int)),
        decreases t.len() - i,
    {
        assert(t@.skip(i as int).drop_first() =~= t@.skip(i + 1));
        i = i + 1;
    }
    crate::text::slice_chars(&t, i, t.len())
}

/// The sub-tasks in a model's answer: one per non-empty line, each trimmed
/// and stripped of leading numbering and bullet characters.
pub fn parse_subtasks(content: &str) -> (r: Vec<String>)
    ensures
        r@.map_values(|s: String| s@) == subtasks_of(lines(content@)),
        forall|k: int| 0 <= k < r.len() ==> (#[trigger] r[k])@.len() > 0,
{
    proof {
        lemma_subtasks_are_clean(lines(content@));
    }
    let c = chars_of(content);
    let n = c.len();
    let mut out: Vec<String> = Vec::new();
    let mut pos: usize = 0;
    assert(c@.skip(0) =~= c@);
    while pos < n
        invariant
            pos <= n,
            n == c.len(),
            c@ == content@,
            out@.map_values(|s: String| s@) + subtasks_of(lines(c@.skip(pos as int)))
                == subtasks_of(lines(c@)),
        decreases n - pos,
    {
        let (end, nl) = next_line(&c, pos);
        let line = crate::text::slice_chars(&c, pos, end);
        let t = clean(&line);
        let ghost before = out@.map_values(|s: String| s@);
        let ghost ls = lines(c@.skip(pos as int));
        if t.len() > 0 {
            out.push(string_of(&t));
            assert(out@.map_values(|s: String| s@) =~= before.push(t@));
        }
        proof {
            let head: Seq<Seq<char>> = if t@.len() > 0 { seq![t@] } else { Seq::empty() };
            assert(subtasks_of(ls) == head + subtasks_of(ls.drop_first()));
            assert(out@.map_values(|s: String| s@) =~= before + head);
            assert(before + (head + subtasks_of(ls.drop_first())) =~= before + head + subtasks_of(
                ls.drop_first(),
            ));
        }
        if nl == n {
            proof {
                assert(ls.drop_first() =~= Seq::<Seq<char>>::empty());
                assert(out@.map_values(|s: String| s@) + Seq::<Seq<char>>::empty() =~= out@.map_values(
                    |s: String| s@,
                ));
            }
            proof {
                let all = subtasks_of(lines(c@));
                lemma_subtasks_are_clean(lines(c@));
                assert(subtasks_of(ls.drop_first()) =~= Seq::<Seq<char>>::empty());
                assert(out@.map_values(|s: String| s@) == all);
                assert forall|k: int| 0 <= k < out.len() implies (#[trigger] out[k])@.len() > 0 by {
                    assert(out@.map_values(|s: String| s@)[k] == out[k]@);
                    assert(all[k].len() > 0);
                }
            }
            return out;
        }
        pos = nl + 1;
    }
    proof {
        assert(c@.skip(n as int) =~= Seq::<char>::empty());
        assert(out@.map_values(|s: String| s@) + Seq::<Seq<char>>::empty() =~= out@.map_values(
            |s: String| s@,
        ));
        assert forall|k: int| 0 <= k < out.len() implies (#[trigger] out[k])@.len() > 0 by {
            assert(out@.map_values(|s: String| s@)[k] == out[k]@);
        }
    }
    out
}

// ───────────────────────── queueing sub-tasks ─────────────────────────

/// `id` advanced `k` times with wrap-around, as the scheduler's id
/// counters advance.
pub open spec fn advance(id: u64, k: nat) -> u64
    decreases k,
{
    if k == 0 {
        id
    } else {
        advance(id, (k - 1) as nat).wrapping_add(1)
    }
}

/// The task that carries one sub-task: normal priority, reasoning, pending,
/// three retries, not yet assigned, in the given scene (0 when none).
pub open spec fn is_subtask_task(t: Task, scene: Option<u64>, description: Seq<char>) -> bool {
    &&& t.id == 0
    &&& t.scene_id == (match scene {
        Some(s) => s,
        None => 0,
    })
    &&& t.priority == Priority::Normal
    &&& t.kind == TaskKind::Reasoning
    &&& t.state == TaskState::Pending
    &&& t.retry_count == 0
    &&& t.max_retries == 3
    &&& t.assigned_to is None
    &&& t.created_at == 0
    &&& t.tags@.len() == 0
    &&& t.description@ == description
}

/// A sub-task's task as it stands once queued under `id`: the task of the
/// sub-task, with that id and in state `Queued`.
pub open spec fn is_queued_subtask(t: Task, scene: Option<u64>, description: Seq<char>, id: u64) -> bool {
    &&& is_subtask_task(Task { id: 0, state: TaskState::Pending, ..t }, scene, description)
    &&& t.id == id
    &&& t.state == TaskState::Queued
}

/// The task for one sub-task (with a 30 s timeout).
pub fn subtask_task(scene: Option<u64>, description: String) -> (t: Task)
    ensures
        is_subtask_task(t, scene, description@),
{
    Task {
        id: 0,
        scene_id: match scene {
            Some(s) => s,
            None => 0,
        },
        priority: Priority::Normal,
        kind: TaskKind::Reasoning,
        state: TaskState::Pending,
        retry_count: 0,
        max_retries: 3,
        timeout: secs(30),
        assigned_to: None,
        created_at: 0,
        tags: Vec::new(),
        description,
    }
}

/// Queues one normal-priority task per sub-task, in order, then registers
/// sub-agents until there are at least as many as sub-tasks (one
/// registration per missing agent).
pub fn queue_subtasks(scheduler: &mut Scheduler, scene: Option<u64>, subtasks: &Vec<String>)
    requires
        old(scheduler).wf(),
        old(scheduler).queued_count() + subtasks@.len() < usize::MAX,
    ensures
        final(scheduler).wf(),
        final(scheduler).queued_count() == old(scheduler).queued_count() + subtasks@.len(),
        final(scheduler).queue(2).len() == old(scheduler).queue(2).len() + subtasks@.len(),
        final(scheduler).queue(2).take(old(scheduler).queue(2).len() as int) == old(scheduler).queue(2),
        forall|k: int|
            0 <= k < subtasks@.len() ==> {
                let t = #[trigger] final(scheduler).queue(2)[old(scheduler).queue(2).len() + k];
                &&& is_queued_subtask(t, scene, subtasks@[k]@, advance(old(scheduler).next_task_id(), k as nat))
            },
        forall|i: int| 0 <= i < 5 && i != 2 ==> final(scheduler).queue(i) == old(scheduler).queue(i),
        final(scheduler).next_subagent_id() == advance(
            old(scheduler).next_subagent_id(),
            (if subtasks@.len() > old(scheduler).agents().len() {
                subtasks@.len() - old(scheduler).agents().len()
            } else {
                0
            }) as nat,
        ),
        final(scheduler).agents().len() >= old(scheduler).agents().len(),
{
    let mut i: usize = 0;
    let ghost q0 = scheduler.queue(2);
    while i < subtasks.len()
        invariant
            i <= subtasks@.len(),
            scheduler.wf(),
            scheduler.queued_count() == old(scheduler).queued_count() + i,
            old(scheduler).queued_count() + subtasks@.len() < usize::MAX,
            q0 == old(scheduler).queue(2),
            scheduler.queue(2).len() == q0.len() + i,
            scheduler.queue(2).take(q0.len() as int) == q0,
            forall|k: int|
                0 <= k < i ==> {
                    let t = #[trigger] scheduler.queue(2)[q0.len() + k];
                    &&& is_queued_subtask(t, scene, subtasks@[k]@, advance(old(scheduler).next_task_id(), k as nat))
                },
            scheduler.next_task_id() == advance(old(scheduler).next_task_id(), i as nat),
            forall|b: int| 0 <= b < 5 && b != 2 ==> scheduler.queue(b) == old(scheduler).queue(b),
            scheduler.agents() == old(scheduler).agents(),
            scheduler.next_subagent_id() == old(scheduler).next_subagent_id(),
        decreases subtasks@.len() - i,
    {
        let task = subtask_task(scene, subtasks[i].clone());
        let ghost before = scheduler.queue(2);
        let ghost id = scheduler.next_task_id();
        scheduler.enqueue(task);
        proof {
            assert(bucket_of(Priority::Normal) == 2);
            assert(scheduler.queue(2) == before.push(queued_form(task, id)));
            assert(scheduler.queue(2).take(q0.len() as int) =~= before.take(q0.len() as int));
            assert forall|k: int| 0 <= k < i + 1 implies {
                let t = #[trigger] scheduler.queue(2)[q0.len() + k];
                &&& is_queued_subtask(t, scene, subtasks@[k]@, advance(old(scheduler).next_task_id(), k as nat))
            } by {
                if k < i {
                    assert(scheduler.queue(2)[q0.len() + k] == before[q0.len() + k]);
                }
            }
        }
        i = i + 1;
    }
    let needed = subtasks.len();
    let active = scheduler.status().active_subagents;
    let mut count = active;
    let ghost mid = *scheduler;
    while count < needed
        invariant
            active <= count,
            count <= needed || count == active,
            scheduler.wf(),
            mid.next_subagent_id() == old(scheduler).next_subagent_id(),
            active == old(scheduler).agents().len(),
            needed == subtasks@.len(),
            scheduler.next_subagent_id() == advance(mid.next_subagent_id(), (count - active) as nat),
            scheduler.agents().len() >= old(scheduler).agents().len(),
            forall|b: int| 0 <= b < 5 ==> scheduler.queue(b) == mid.queue(b),
        decreases needed - count,
    {
        scheduler.register_subagent();
        count = count + 1;
    }
}

// ───────────────────────── the final report ─────────────────────────

/// The report lines of one sub-agent result, numbered from one.
pub open spec fn report_entry(r: SubAgentResult, index: nat) -> Seq<char> {
    "**兵虫 #"@ + decimal(index + 1) + "**\n"@ + "  任务: "@ + r.subtask@ + "\n"@ + "  "@ + r.result@
        + "\n\n"@
}

/// The report entries of all results, in order.
pub open spec fn report_entries(rs: Seq<SubAgentResult>) -> Seq<char>
    decreases rs.len(),
{
    if rs.len() == 0 {
        Seq::empty()
    } else {
        report_entries(rs.drop_last()) + report_entry(rs.last(), (rs.len() - 1) as nat)
    }
}

/// The final report: a note that nothing was dispatched when there are no
/// results; otherwise a header, one numbered entry per result, and a
/// closing line.
pub open spec fn synthesis(rs: Seq<SubAgentResult>) -> Seq<char> {
    if rs.len() == 0 {
        "🧠 没有子任务被派发。"@
    } else {
        "🧠 子Agent 执行结果：\n\n"@ + report_entries(rs) + "── 星空虫族汇报完毕 ──"@
    }
}

/// Writes the final report of the sub-agents' results.
pub fn synthesize(results: &[SubAgentResult]) -> (r: String)
    ensures
        r@ == synthesis(results@),
{
    if results.len() == 0 {
        return "🧠 没有子任务被派发。".to_owned();
    }
    let mut out: Vec<char> = chars_of("🧠 子Agent 执行结果：\n\n");
    let ghost header = out@;
    let mut i: usize = 0;
    while i < results.len()
        invariant
            i <= results@.len(),
            out@ == header + report_entries(results@.take(i as int)),
        decreases results@.len() - i,
    {
        let ghost before = out@;
        let r = &results[i];
        extend_str(&mut out, "**兵虫 #");
        let n = decimal_chars(i as u64 + 1);
        extend_chars(&mut out, &n);
        extend_str(&mut out, "**\n");
        extend_str(&mut out, "  任务: ");
        extend_str(&mut out, r.subtask.as_str());
        extend_str(&mut out, "\n");
        extend_str(&mut out, "  ");
        extend_str(&mut out, r.result.as_str());
        extend_str(&mut out, "\n\n");
        proof {
            let t = results@.take(i + 1);
            assert(t.drop_last() =~= results@.take(i as int));
            assert(t.last() == results@[i as int]);
            assert(out@ =~= before + report_entry(results@[i as int], i as nat));
        }
        i = i + 1;
    }
    assert(results@.take(results@.len() as int) =~= results@);
    extend_str(&mut out, "── 星空虫族汇报完毕 ──");
    string_of(&out)
}

// ───────────────────────── the Overmind ─────────────────────────

/// What the Overmind sends a model, apart from the sampling temperature:
/// the model, the conversation, and the room left for the answer.
pub struct ModelCall {
    pub model: String,
    pub messages: Vec<Message>,
    pub max_tokens: u32,
}

/// The main agent: it splits a request into sub-tasks, dispatches them to
/// sub-agents and writes the final report.
pub struct Overmind {
    pub identity: AgentIdentity,
    pub scene: Option<u64>,
    pub model: String,
}

/// The instruction appended to a conversation to have a request split into
/// sub-tasks.
pub open spec fn decompose_prompt(input: Seq<char>) -> Seq<char> {
    "将以下用户需求分解为可并行执行的子任务列表。每行一个子任务，不要编号。\n\n用户需求："@ + input + "\n\n子任务："@
}

impl Overmind {
    /// The Overmind of no scene, talking to `gpt-4o-mini`.
    pub fn new() -> (r: Self)
        ensures
            r.identity.name@ == "Overmind"@,
            r.identity.kind == AgentKind::Main,
            r.scene is None,
            r.model@ == "gpt-4o-mini"@,
    {
        Overmind { identity: overmind_identity(), scene: None, model: "gpt-4o-mini".to_owned() }
    }

    /// The same Overmind, talking to `model`.
    pub fn with_model(self, model: String) -> (r: Self)
        ensures
            r.model@ == model@,
            r.identity == self.identity,
            r.scene == self.scene,
    {
        Overmind { identity: self.identity, scene: self.scene, model }
    }

    /// The conversation sent to have `input` split into sub-tasks: the
    /// conversation so far, then the splitting instruction as the user's.
    pub fn decompose_messages(&self, input: &str, messages: &Vec<Message>) -> (r: Vec<Message>)
        ensures
            r@.len() == messages@.len() + 1,
            forall|k: int| 0 <= k < messages@.len() ==> msg_view(#[trigger] r@[k]) == msg_view(messages@[k]),
            r@.last().role == Role::User,
            r@.last().content@ == decompose_prompt(input@),
    {
        let mut r: Vec<Message> = Vec::new();
        let mut i: usize = 0;
        while i < messages.len()
            invariant
                i <= messages@.len(),
                r@.len() == i,
                forall|k: int| 0 <= k < i ==> msg_view(#[trigger] r@[k]) == msg_view(messages@[k]),
            decreases messages@.len() - i,
        {
            r.push(Message { role: messages[i].role, content: messages[i].content.clone() });
            i = i + 1;
        }
        let mut p = chars_of("将以下用户需求分解为可并行执行的子任务列表。每行一个子任务，不要编号。\n\n用户需求：");
        extend_str(&mut p, input);
        extend_str(&mut p, "\n\n子任务：");
        r.push(Message { role: Role::User, content: string_of(&p) });
        r
    }

    /// The call that splits `input` into sub-tasks: this Overmind's model,
    /// the conversation of `decompose_messages`, and room for 512 tokens.
    pub fn decompose_call(&self, input: &str, messages: &Vec<Message>) -> (r: ModelCall)
        ensures
            r.model@ == self.model@,
            r.max_tokens == 512,
            r.messages@.len() == messages@.len() + 1,
            forall|k: int| 0 <= k < messages@.len() ==> msg_view(#[trigger] r.messages@[k]) == msg_view(messages@[k]),
            r.messages@.last().role == Role::User,
            r.messages@.last().content@ == decompose_prompt(input@),
    {
        ModelCall { model: self.model.clone(), messages: self.decompose_messages(input, messages), max_tokens: 512 }
    }

    /// The call that runs one sub-task: this Overmind's model, the sub-task
    /// as the user's only message, and room for 4096 tokens.
    pub fn subtask_call(&self, description: &str) -> (r: ModelCall)
        ensures
            r.model@ == self.model@,
            r.max_tokens == 4096,
            r.messages@.len() == 1,
            r.messages@[0].role == Role::User,
            r.messages@[0].content@ == description@,
    {
        let mut messages: Vec<Message> = Vec::new();
        messages.push(Message { role: Role::User, content: description.to_owned() });
        ModelCall { model: self.model.clone(), messages, max_tokens: 4096 }
    }

    /// Queues the sub-tasks for this Overmind's scene (see `queue_subtasks`).
    pub fn queue(&self, scheduler: &mut Scheduler, subtasks: &Vec<String>)
        requires
            old(scheduler).wf(),
            old(scheduler).queued_count() + subtasks@.len() < usize::MAX,
        ensures
            final(scheduler).wf(),
            final(scheduler).queued_count() == old(scheduler).queued_count() + subtasks@.len(),
            final(scheduler).queue(2).take(old(scheduler).queue(2).len() as int) == old(scheduler).queue(2),
            final(scheduler).queue(2).len() == old(scheduler).queue(2).len() + subtasks@.len(),
            forall|k: int|
                0 <= k < subtasks@.len() ==> {
                    let t = #[trigger] final(scheduler).queue(2)[old(scheduler).queue(2).len() + k];
                    &&& is_queued_subtask(t, self.scene, subtasks@[k]@, advance(old(scheduler).next_task_id(), k as nat))
                },
            forall|i: int| 0 <= i < 5 && i != 2 ==> final(scheduler).queue(i) == old(scheduler).queue(i),
    {
        queue_subtasks(scheduler, self.scene, subtasks);
    }

    /// The final report of the sub-agents' results.
    pub fn synthesize(&self, results: &[SubAgentResult]) -> (r: String)
        ensures
            r@ == synthesis(results@),
    {
        synthesize(results)
    }
}

impl Default for Overmind {
    /// The same as `Overmind::new`.
    fn default() -> (r: Self)
        ensures
            r.identity.name@ == "Overmind"@,
            r.identity.kind == AgentKind::Main,
            r.scene is None,
            r.model@ == "gpt-4o-mini"@,
    {
        Overmind::new()
    }
}

/// What a sub-agent reports for a task: the model's answer, or the failure
/// written out; either way the task counts as done.
pub fn sub_agent_result(task_id: u64, subtask: String, outcome: Result<String, ModelError>) -> (r: SubAgentResult)
    ensures
        r.task_id == task_id,
        r.subtask@ == subtask@,
        r.success,
        r.result@ == (match outcome {
            Ok(c) => c@,
            Err(e) => "✗ 执行失败: "@ + model_error_text(e),
        }),
{
    let result = match outcome {
        Ok(c) => c,
        Err(e) => {
            let m = e.message();
            concat("✗ 执行失败: ", m.as_str())
        },
    };
    SubAgentResult { task_id, subtask, result, success: true }
}

} // verus!
