//! The task scheduler: five FIFO priority buckets, aging that promotes
//! tasks which waited too long, and a pool of sub-agents that tasks are
//! assigned to.
use vstd::prelude::*;
use std::collections::VecDeque;
use vstd::multiset::Multiset;
use std::time::{Duration, Instant};
use crate::clock::{elapsed_exceeds, now, zero};
use crate::types::{Priority, SubAgentState, Task, TaskKind, TaskState, priority_level};

verus! {

/// Number of priority buckets.
pub const BUCKETS: usize = 5;

/// The bucket a priority weight falls into: 0 ↦ 0, 1..=3 ↦ 1, 4..=7 ↦ 2,
/// 8..=15 ↦ 3, 16.. ↦ 4.
pub open spec fn level_bucket(p: u8) -> int {
    if p == 0 {
        0
    } else if p <= 3 {
        1
    } else if p <= 7 {
        2
    } else if p <= 15 {
        3
    } else {
        4
    }
}

/// The bucket a task of priority `p` is queued in.
pub open spec fn bucket_of(p: Priority) -> int {
    match p {
        Priority::Emergency => 0,
        Priority::High => 1,
        Priority::Normal => 2,
        Priority::Low => 3,
        Priority::Background => 4,
    }
}

/// Each priority's bucket is the bucket of its weight.
pub proof fn lemma_bucket_of_level(p: Priority)
    ensures
        bucket_of(p) == level_bucket(priority_level(p)),
{
}

/// The bucket a task of priority `p` is queued in.
pub fn priority_to_bucket(p: Priority) -> (r: usize)
    ensures
        r == bucket_of(p),
{
    match p {
        Priority::Emergency => 0,
        Priority::High => 1,
        Priority::Normal => 2,
        Priority::Low => 3,
        Priority::Background => 4,
    }
}

/// The bucket a priority weight falls into.
pub fn priority_to_bucket_index(p: u8) -> (r: usize)
    ensures
        r == level_bucket(p),
{
    if p == 0 {
        0
    } else if p <= 3 {
        1
    } else if p <= 7 {
        2
    } else if p <= 15 {
        3
    } else {
        4
    }
}

/// A task waiting in a bucket, with the moment it was queued and the
/// weight it currently competes with.
#[derive(Debug)]
pub struct QueuedTask {
    pub task: Task,
    pub enqueued_at: Instant,
    pub effective_priority: u8,
}

/// The tasks of a bucket, oldest first.
pub open spec fn tasks_of(q: Seq<QueuedTask>) -> Seq<Task> {
    q.map_values(|qt: QueuedTask| qt.task)
}

/// A task as it stands once queued under `id`.
pub open spec fn queued_form(task: Task, id: u64) -> Task {
    Task { id: id, state: TaskState::Queued, ..task }
}

/// An entry that sits rightly in bucket `i`: its weight falls into bucket
/// `i` and its task is in state `Queued`.
pub open spec fn entry_ok(qt: QueuedTask, i: int) -> bool {
    level_bucket(qt.effective_priority) == i && qt.task.state == TaskState::Queued
}

/// Every entry of `q` sits rightly in bucket `i`.
pub open spec fn entries_wf(q: Seq<QueuedTask>, i: int) -> bool {
    forall|k: int| 0 <= k < q.len() ==> entry_ok(#[trigger] q[k], i)
}

proof fn lemma_entries_push(q: Seq<QueuedTask>, x: QueuedTask, i: int)
    requires
        entries_wf(q, i),
        entry_ok(x, i),
    ensures
        entries_wf(q.push(x), i),
{
    assert forall|k: int| 0 <= k < q.push(x).len() implies entry_ok(#[trigger] q.push(x)[k], i) by {
        if k < q.len() {
            assert(q.push(x)[k] == q[k]);
        }
    }
}

proof fn lemma_entries_tail(q: Seq<QueuedTask>, i: int)
    requires
        entries_wf(q, i),
        q.len() > 0,
    ensures
        entries_wf(q.subrange(1, q.len() as int), i),
        entries_wf(q.drop_first(), i),
        entry_ok(q[0], i),
{
    assert forall|k: int| 0 <= k < q.subrange(1, q.len() as int).len() implies entry_ok(
        #[trigger] q.subrange(1, q.len() as int)[k],
        i,
    ) by {
        assert(q.subrange(1, q.len() as int)[k] == q[k + 1]);
    }
    assert(q.drop_first() =~= q.subrange(1, q.len() as int));
}

/// The tasks of a bucket, as a multiset.
pub open spec fn task_bag(q: Seq<QueuedTask>) -> Multiset<Task> {
    tasks_of(q).to_multiset()
}

proof fn lemma_bag_empty(q: Seq<QueuedTask>)
    requires
        q.len() == 0,
    ensures
        task_bag(q) =~= Multiset::empty(),
{
    broadcast use vstd::seq_lib::group_to_multiset_ensures;
    vstd::multiset::lemma_multiset_empty_len(task_bag(q));
    assert(tasks_of(q).len() == 0);
}

proof fn lemma_bag_push(q: Seq<QueuedTask>, x: QueuedTask)
    ensures
        task_bag(q.push(x)) =~= task_bag(q).insert(x.task),
{
    broadcast use vstd::seq_lib::group_to_multiset_ensures;
    assert(tasks_of(q.push(x)) =~= tasks_of(q).push(x.task));
}

proof fn lemma_bag_front(q: Seq<QueuedTask>)
    requires
        q.len() > 0,
    ensures
        task_bag(q) =~= task_bag(q.drop_first()).insert(q[0].task),
{
    broadcast use vstd::seq_lib::group_to_multiset_ensures;
    assert(tasks_of(q).remove(0) =~= tasks_of(q.drop_first()));
    assert(tasks_of(q)[0] == q[0].task);
    assert(tasks_of(q).to_multiset().remove(q[0].task) =~= tasks_of(q.drop_first()).to_multiset());
    assert(tasks_of(q).to_multiset().count(q[0].task) > 0);
}

/// An entry with its weight lowered by one, not below zero.
pub open spec fn lowered(qt: QueuedTask) -> QueuedTask {
    QueuedTask {
        effective_priority: if qt.effective_priority > 0 { (qt.effective_priority - 1) as u8 } else { 0 },
        ..qt
    }
}

/// Whether `mask` marks position `k`; positions past its end are unmarked.
pub open spec fn flag(mask: Seq<bool>, k: int) -> bool {
    0 <= k < mask.len() && mask[k]
}

/// The entries of `q` that `mask` leaves in place, in order.
pub open spec fn kept_part(q: Seq<QueuedTask>, mask: Seq<bool>) -> Seq<QueuedTask>
    decreases q.len(),
{
    if q.len() == 0 {
        Seq::empty()
    } else if flag(mask, q.len() - 1) {
        kept_part(q.drop_last(), mask)
    } else {
        kept_part(q.drop_last(), mask).push(q.last())
    }
}

/// The entries of `q` that `mask` marks as timed out, in order.
pub open spec fn aged_part(q: Seq<QueuedTask>, mask: Seq<bool>) -> Seq<QueuedTask>
    decreases q.len(),
{
    if q.len() == 0 {
        Seq::empty()
    } else if flag(mask, q.len() - 1) {
        aged_part(q.drop_last(), mask).push(q.last())
    } else {
        aged_part(q.drop_last(), mask)
    }
}

/// The entries of `p`, each lowered, whose lowered weight falls into
/// bucket `j`, in order.
pub open spec fn lowered_into(p: Seq<QueuedTask>, j: int) -> Seq<QueuedTask>
    decreases p.len(),
{
    if p.len() == 0 {
        Seq::empty()
    } else if level_bucket(lowered(p.last()).effective_priority) == j {
        lowered_into(p.drop_last(), j).push(lowered(p.last()))
    } else {
        lowered_into(p.drop_last(), j)
    }
}

/// The buckets after one aging step on bucket `idx`, where `mask` marks
/// the entries of that bucket that waited too long: those leave it, the
/// others stay in order, and each aged entry, lowered, joins the back of
/// the bucket of its new weight, in the order they stood.
pub open spec fn aging_step(qs: Seq<Seq<QueuedTask>>, idx: int, mask: Seq<bool>) -> Seq<Seq<QueuedTask>> {
    Seq::new(
        qs.len(),
        |j: int|
            (if j == idx {
                kept_part(qs[idx], mask)
            } else {
                qs[j]
            }) + lowered_into(aged_part(qs[idx], mask), j),
    )
}

/// The buckets after a pass of aging steps on buckets 4, 3, 2, 1 and 0 in
/// turn, `ms[t]` marking the timed-out entries of the `t`-th step.
pub open spec fn aging_pass(qs: Seq<Seq<QueuedTask>>, ms: Seq<Seq<bool>>) -> Seq<Seq<QueuedTask>>
    decreases ms.len(),
{
    if ms.len() == 0 {
        qs
    } else {
        aging_step(aging_pass(qs, ms.drop_last()), 4 - (ms.len() - 1), ms.last())
    }
}

proof fn lemma_aged_part_contains(q: Seq<QueuedTask>, mask: Seq<bool>, p: int)
    requires
        0 <= p < q.len(),
        flag(mask, p),
    ensures
        aged_part(q, mask).contains(q[p]),
    decreases q.len(),
{
    if p == q.len() - 1 {
        let r = aged_part(q.drop_last(), mask);
        assert(aged_part(q, mask) == r.push(q.last()));
        assert(aged_part(q, mask)[r.len() as int] == q[p]);
    } else {
        lemma_aged_part_contains(q.drop_last(), mask, p);
        let r = aged_part(q.drop_last(), mask);
        assert(q.drop_last()[p] == q[p]);
        let i = choose|i: int| 0 <= i < r.len() && r[i] == q[p];
        if flag(mask, q.len() - 1) {
            assert(aged_part(q, mask)[i] == q[p]);
        } else {
            assert(aged_part(q, mask) == r);
        }
    }
}

proof fn lemma_lowered_into_contains(ps: Seq<QueuedTask>, j: int, x: QueuedTask)
    requires
        ps.contains(x),
        level_bucket(lowered(x).effective_priority) == j,
    ensures
        lowered_into(ps, j).contains(lowered(x)),
    decreases ps.len(),
{
    let r = lowered_into(ps.drop_last(), j);
    if ps.last() == x {
        assert(lowered_into(ps, j) == r.push(lowered(x)));
        assert(lowered_into(ps, j)[r.len() as int] == lowered(x));
    } else {
        let i = choose|i: int| 0 <= i < ps.len() && ps[i] == x;
        assert(i < ps.len() - 1);
        assert(ps.drop_last()[i] == x);
        lemma_lowered_into_contains(ps.drop_last(), j, x);
        let m = choose|m: int| 0 <= m < r.len() && r[m] == lowered(x);
        if level_bucket(lowered(ps.last()).effective_priority) == j {
            assert(lowered_into(ps, j)[m] == lowered(x));
        } else {
            assert(lowered_into(ps, j) == r);
        }
    }
}

/// An entry that timed out moves up: after the aging step on its bucket,
/// the entry with its weight lowered by one stands in the bucket of that
/// weight.
pub proof fn lemma_timed_out_entry_moves_up(qs: Seq<Seq<QueuedTask>>, idx: int, mask: Seq<bool>, p: int)
    requires
        qs.len() == 5,
        0 <= idx < 5,
        0 <= p < qs[idx].len(),
        flag(mask, p),
    ensures
        aging_step(qs, idx, mask)[level_bucket(lowered(qs[idx][p]).effective_priority)].contains(
            lowered(qs[idx][p]),
        ),
{
    let x = qs[idx][p];
    let j = level_bucket(lowered(x).effective_priority);
    lemma_aged_part_contains(qs[idx], mask, p);
    lemma_lowered_into_contains(aged_part(qs[idx], mask), j, x);
    let l = lowered_into(aged_part(qs[idx], mask), j);
    let base = if j == idx { kept_part(qs[idx], mask) } else { qs[j] };
    let m = choose|m: int| 0 <= m < l.len() && l[m] == lowered(x);
    assert(aging_step(qs, idx, mask)[j] == base + l);
    assert((base + l)[base.len() + m] == lowered(x));
}

/// A timed-out Background task moves up to the Low level: after the aging
/// step on the Background bucket, an entry there of weight 16 that timed
/// out stands in the Low bucket with weight 15.
pub proof fn lemma_background_moves_to_low(qs: Seq<Seq<QueuedTask>>, mask: Seq<bool>, p: int)
    requires
        qs.len() == 5,
        0 <= p < qs[4].len(),
        flag(mask, p),
        qs[4][p].effective_priority == 16,
    ensures
        lowered(qs[4][p]).effective_priority == 15,
        aging_step(qs, 4, mask)[3].contains(lowered(qs[4][p])),
{
    lemma_timed_out_entry_moves_up(qs, 4, mask, p);
}

proof fn lemma_pass_take(qs: Seq<Seq<QueuedTask>>, ms: Seq<Seq<bool>>, k: int)
    requires
        0 <= k < ms.len(),
    ensures
        aging_pass(qs, ms.take(k + 1)) == aging_step(aging_pass(qs, ms.take(k)), 4 - k, ms[k]),
{
    assert(ms.take(k + 1).drop_last() =~= ms.take(k));
    assert(ms.take(k + 1).last() == ms[k]);
}

/// An aging step on an empty bucket, when no other bucket gains anything,
/// leaves the buckets as they are.
proof fn lemma_step_on_empty(qs: Seq<Seq<QueuedTask>>, idx: int, mask: Seq<bool>)
    requires
        qs.len() == 5,
        0 <= idx < 5,
        qs[idx].len() == 0,
    ensures
        aging_step(qs, idx, mask) =~= qs,
{
    assert(kept_part(qs[idx], mask) =~= qs[idx]);
    assert forall|j: int| 0 <= j < 5 implies aging_step(qs, idx, mask)[j] =~= qs[j] by {
        assert(lowered_into(aged_part(qs[idx], mask), j) =~= Seq::<QueuedTask>::empty());
    }
}

/// An aging step on a bucket that holds the single entry `x`, whose lowered
/// weight keeps it in the same bucket `j`, when every other bucket is empty.
proof fn lemma_step_on_single(qs: Seq<Seq<QueuedTask>>, idx: int, mask: Seq<bool>, x: QueuedTask)
    requires
        qs.len() == 5,
        0 <= idx < 5,
        qs[idx] == seq![x],
        forall|j: int| 0 <= j < 5 && j != idx ==> (#[trigger] qs[j]).len() == 0,
    ensures
        flag(mask, 0) ==> aging_step(qs, idx, mask)[level_bucket(lowered(x).effective_priority)] =~= seq![
            lowered(x),
        ],
        flag(mask, 0) ==> forall|j: int|
            0 <= j < 5 && j != level_bucket(lowered(x).effective_priority) ==> (#[trigger] aging_step(
                qs,
                idx,
                mask,
            )[j]).len() == 0,
        !flag(mask, 0) ==> aging_step(qs, idx, mask) =~= qs,
{
    let q = qs[idx];
    assert(q.drop_last() =~= Seq::<QueuedTask>::empty());
    assert(q.last() == x);
    let t = level_bucket(lowered(x).effective_priority);
    assert(kept_part(q.drop_last(), mask) =~= Seq::<QueuedTask>::empty());
    assert(aged_part(q.drop_last(), mask) =~= Seq::<QueuedTask>::empty());
    if flag(mask, 0) {
        assert(kept_part(q, mask) =~= Seq::<QueuedTask>::empty());
        assert(aged_part(q, mask) =~= seq![x]);
        let a = aged_part(q, mask);
        assert(a.drop_last() =~= Seq::<QueuedTask>::empty());
        assert(a.last() == x);
        assert(lowered_into(a.drop_last(), t) =~= Seq::<QueuedTask>::empty());
        assert(lowered_into(a, t) =~= seq![lowered(x)]);
        assert forall|j: int| 0 <= j < 5 && j != t implies (#[trigger] aging_step(qs, idx, mask)[j]).len()
            == 0 by {
            assert(lowered_into(a.drop_last(), j) =~= Seq::<QueuedTask>::empty());
            assert(lowered_into(a, j) =~= Seq::<QueuedTask>::empty());
        }
        assert(aging_step(qs, idx, mask)[t] =~= seq![lowered(x)]);
    } else {
        assert(kept_part(q, mask) =~= seq![x]);
        assert(aged_part(q, mask) =~= Seq::<QueuedTask>::empty());
        assert forall|j: int| 0 <= j < 5 implies aging_step(qs, idx, mask)[j] =~= qs[j] by {
            assert(lowered_into(aged_part(q, mask), j) =~= Seq::<QueuedTask>::empty());
        }
    }
}

/// A lone Background task that timed out heads the Low level after a whole
/// aging pass: where only the Background bucket holds anything, and that is
/// one entry of weight 16 that the pass finds timed out, the pass leaves it,
/// lowered once (or twice, where it timed out again in the Low bucket), as
/// the one entry of the Low bucket, and every other bucket empty. A task
/// queued afterwards joins that bucket behind it.
pub proof fn lemma_lone_background_heads_low(qs: Seq<Seq<QueuedTask>>, ms: Seq<Seq<bool>>)
    requires
        qs.len() == 5,
        forall|j: int| 0 <= j < 4 ==> (#[trigger] qs[j]).len() == 0,
        qs[4].len() == 1,
        qs[4][0].effective_priority == 16,
        ms.len() == 5,
        flag(ms[0], 0),
    ensures
        aging_pass(qs, ms)[3] == (if flag(ms[1], 0) {
            seq![lowered(lowered(qs[4][0]))]
        } else {
            seq![lowered(qs[4][0])]
        }),
        aging_pass(qs, ms)[3][0].task == qs[4][0].task,
        forall|j: int| 0 <= j < 5 && j != 3 ==> (#[trigger] aging_pass(qs, ms)[j]).len() == 0,
{
    let b = qs[4][0];
    assert(qs[4] =~= seq![b]);
    assert(ms.take(0) =~= Seq::<Seq<bool>>::empty());
    let s0 = aging_pass(qs, ms.take(0));
    assert(s0 == qs);
    lemma_pass_take(qs, ms, 0);
    lemma_step_on_single(s0, 4, ms[0], b);
    let s1 = aging_pass(qs, ms.take(1));
    let b1 = lowered(b);
    assert(level_bucket(b1.effective_priority) == 3);
    assert(s1[3] =~= seq![b1]);
    lemma_pass_take(qs, ms, 1);
    lemma_step_on_single(s1, 3, ms[1], b1);
    let s2 = aging_pass(qs, ms.take(2));
    let b2 = if flag(ms[1], 0) { lowered(b1) } else { b1 };
    assert(level_bucket(lowered(b1).effective_priority) == 3);
    assert(s2[3] =~= seq![b2]);
    assert(forall|j: int| 0 <= j < 5 && j != 3 ==> (#[trigger] s2[j]).len() == 0);
    lemma_pass_take(qs, ms, 2);
    lemma_step_on_empty(s2, 2, ms[2]);
    let s3 = aging_pass(qs, ms.take(3));
    assert(s3 == s2);
    lemma_pass_take(qs, ms, 3);
    lemma_step_on_empty(s3, 1, ms[3]);
    let s4 = aging_pass(qs, ms.take(4));
    assert(s4 == s2);
    lemma_pass_take(qs, ms, 4);
    lemma_step_on_empty(s4, 0, ms[4]);
    assert(ms.take(5) =~= ms);
    assert(aging_pass(qs, ms) == s2);
}

/// Flag lists by their values.
pub open spec fn flag_lists(v: Seq<Vec<bool>>) -> Seq<Seq<bool>> {
    v.map_values(|f: Vec<bool>| f@)
}

/// Book-keeping of one sub-agent.
#[derive(Debug)]
pub struct SubAgentInfo {
    pub id: u64,
    pub state: SubAgentState,
    pub current_tasks: u32,
    pub max_concurrent: u32,
    pub started_at: Instant,
    pub last_heartbeat: Instant,
    pub total_completed: u64,
    pub total_failed: u64,
    pub avg_completion_time: Duration,
    pub loaded_resources: Vec<String>,
    pub recent_task_types: Vec<TaskKind>,
}

/// Whether a sub-agent can take work: it is idle or busy.
pub open spec fn can_take_work(a: SubAgentInfo) -> bool {
    a.state == SubAgentState::Idle || a.state == SubAgentState::Busy
}

/// A freshly registered sub-agent: idle, no work done, room for eight tasks.
pub open spec fn is_fresh_agent(a: SubAgentInfo, id: u64) -> bool {
    &&& a.id == id
    &&& a.state == SubAgentState::Idle
    &&& a.current_tasks == 0
    &&& a.max_concurrent == 8
    &&& a.total_completed == 0
    &&& a.total_failed == 0
    &&& a.loaded_resources@.len() == 0
    &&& a.recent_task_types@.len() == 0
}

/// A task as it stands once assigned to sub-agent `id`.
pub open spec fn assigned_form(task: Task, id: u64) -> Task {
    Task { assigned_to: Some(id), state: TaskState::Running, ..task }
}

/// `best` is the first agent among `agents[0..i]` that can take work with
/// the fewest current tasks, or `None` when none of them can take work.
pub open spec fn best_among(agents: Seq<SubAgentInfo>, i: int, best: Option<usize>) -> bool {
    match best {
        None => forall|j: int| 0 <= j < i ==> !can_take_work(#[trigger] agents[j]),
        Some(b) => {
            &&& b < i
            &&& can_take_work(agents[b as int])
            &&& forall|j: int|
                0 <= j < i && can_take_work(#[trigger] agents[j]) ==> agents[b as int].current_tasks
                    <= agents[j].current_tasks
            &&& forall|j: int|
                0 <= j < b && can_take_work(#[trigger] agents[j]) ==> agents[b as int].current_tasks
                    < agents[j].current_tasks
        },
    }
}

/// Counts of queued tasks and sub-agents.
#[derive(Debug, Clone, Copy, PartialEq, Eq, Structural)]
pub struct SchedulerStatus {
    pub queued_tasks: usize,
    pub active_subagents: usize,
    pub idle_subagents: usize,
}

struct ConcurrencyLimits {
    global_max: u32,
    per_scene_max: u32,
}

/// The scheduler: tasks wait in five priority buckets, most urgent first,
/// first in first out within a bucket.
pub struct Scheduler {
    buckets: Vec<VecDeque<QueuedTask>>,
    /// Kept in registration order, ids unique (`wf`), rather than in a map
    /// by id: `assign` picks the first least-loaded sub-agent, which a
    /// map's walk would leave open.
    subagents: Vec<SubAgentInfo>,
    limits: ConcurrencyLimits,
    next_id: u64,
    next_agent_id: u64,
}

impl Scheduler {
    /// The tasks waiting in bucket `i`, oldest first.
    pub closed spec fn queue(self, i: int) -> Seq<Task> {
        tasks_of(self.buckets@[i]@)
    }

    /// The queued entries of bucket `i`.
    pub closed spec fn entries(self, i: int) -> Seq<QueuedTask> {
        self.buckets@[i]@
    }

    /// The entries of the five buckets, each oldest first.
    pub closed spec fn bucket_lists(self) -> Seq<Seq<QueuedTask>> {
        self.buckets@.map_values(|b: VecDeque<QueuedTask>| b@)
    }

    /// The registered sub-agents, in registration order.
    pub closed spec fn agents(self) -> Seq<SubAgentInfo> {
        self.subagents@
    }

    /// The id the next queued task receives.
    pub closed spec fn next_task_id(self) -> u64 {
        self.next_id
    }

    /// The id the next registered sub-agent receives.
    pub closed spec fn next_subagent_id(self) -> u64 {
        self.next_agent_id
    }

    /// The configured global and per-scene parallelism limits.
    pub closed spec fn limits(self) -> (u32, u32) {
        (self.limits.global_max, self.limits.per_scene_max)
    }

    /// The number of tasks waiting in all buckets.
    pub open spec fn queued_count(self) -> nat {
        self.queue(0).len() + self.queue(1).len() + self.queue(2).len() + self.queue(3).len()
            + self.queue(4).len()
    }

    /// Every waiting task, whatever its bucket.
    pub closed spec fn pending(self) -> Multiset<Task> {
        task_bag(self.buckets@[0]@).add(task_bag(self.buckets@[1]@)).add(task_bag(self.buckets@[2]@)).add(
            task_bag(self.buckets@[3]@),
        ).add(task_bag(self.buckets@[4]@))
    }

    /// The first bucket that holds a task, or 5 when all are empty.
    pub open spec fn first_nonempty(self) -> int {
        if self.queue(0).len() > 0 {
            0
        } else if self.queue(1).len() > 0 {
            1
        } else if self.queue(2).len() > 0 {
            2
        } else if self.queue(3).len() > 0 {
            3
        } else if self.queue(4).len() > 0 {
            4
        } else {
            5
        }
    }

    /// The sub-agent registered under `id`, if any.
    pub open spec fn agent(self, id: u64) -> Option<SubAgentInfo> {
        if exists|k: int| 0 <= k < self.agents().len() && self.agents()[k].id == id {
            Some(
                self.agents()[choose|k: int| 0 <= k < self.agents().len() && self.agents()[k].id == id],
            )
        } else {
            None
        }
    }

    /// Every entry of bucket `i` competes with a weight of bucket `i`, and
    /// every queued task is in state `Queued`.
    pub open spec fn bucket_wf(self, i: int) -> bool {
        entries_wf(self.entries(i), i)
    }

    /// The scheduler's invariant.
    pub closed spec fn wf(self) -> bool {
        &&& self.buckets@.len() == BUCKETS
        &&& forall|i: int| 0 <= i < 5 ==> self.bucket_wf(i)
        &&& self.queued_count() <= usize::MAX
        &&& forall|j: int, k: int|
            0 <= j < k < self.subagents@.len() ==> self.subagents@[j].id != self.subagents@[k].id
    }

    proof fn lemma_queue_len(self, i: int)
        requires
            self.wf(),
            0 <= i < 5,
        ensures
            self.queue(i).len() == self.buckets@[i]@.len(),
            self.entries(i) == self.buckets@[i]@,
    {
    }

    /// An empty scheduler with the given parallelism limits.
    pub fn new(global_max: u32, per_scene_max: u32) -> (s: Self)
        ensures
            s.wf(),
            forall|i: int| 0 <= i < 5 ==> s.queue(i).len() == 0,
            s.agents().len() == 0,
            s.next_task_id() == 1,
            s.next_subagent_id() == 1,
            s.limits() == (global_max, per_scene_max),
    {
        let mut buckets: Vec<VecDeque<QueuedTask>> = Vec::new();
        buckets.push(VecDeque::new());
        buckets.push(VecDeque::new());
        buckets.push(VecDeque::new());
        buckets.push(VecDeque::new());
        buckets.push(VecDeque::new());
        let s = Scheduler {
            buckets,
            subagents: Vec::new(),
            limits: ConcurrencyLimits { global_max, per_scene_max },
            next_id: 1,
            next_agent_id: 1,
        };
        assert forall|i: int| 0 <= i < 5 implies s.queue(i).len() == 0 by {
            assert(s.buckets@[i]@.len() == 0);
        }
        s
    }

    /// Queues a task at the back of its priority's bucket, under the next
    /// task id and in state `Queued`.
    pub fn enqueue(&mut self, task: Task)
        requires
            old(self).wf(),
            old(self).queued_count() < usize::MAX,
        ensures
            final(self).wf(),
            final(self).next_task_id() == old(self).next_task_id().wrapping_add(1),
            final(self).queue(bucket_of(task.priority)) == old(self).queue(
                bucket_of(task.priority),
            ).push(queued_form(task, old(self).next_task_id())),
            forall|i: int|
                0 <= i < 5 && i != bucket_of(task.priority) ==> final(self).queue(i) == old(
                    self,
                ).queue(i),
            final(self).queued_count() == old(self).queued_count() + 1,
            final(self).pending() == old(self).pending().insert(queued_form(task, old(self).next_task_id())),
            final(self).agents() == old(self).agents(),
            final(self).next_subagent_id() == old(self).next_subagent_id(),
            final(self).limits() == old(self).limits(),
    {
        let mut task = task;
        let ghost t0 = task;
        task.id = self.next_id;
        self.next_id = self.next_id.wrapping_add(1);
        task.state = TaskState::Queued;
        let priority = task.priority;
        let level = priority.level();
        let b = priority_to_bucket(priority);
        proof {
            lemma_bucket_of_level(priority);
            assert(task == queued_form(t0, old(self).next_id));
        }
        let ghost old_buckets = self.buckets@;
        let entry = QueuedTask { task, enqueued_at: now(), effective_priority: level };
        let ghost e = entry;
        proof {
            assert(old(self).bucket_wf(b as int));
            lemma_entries_push(old_buckets[b as int]@, e, b as int);
        }
        self.buckets[b].push_back(entry);
        proof {
            assert forall|i: int| 0 <= i < 5 && i != b implies self.buckets@[i] == old_buckets[i] by {}
            assert(tasks_of(self.buckets@[b as int]@) =~= tasks_of(old_buckets[b as int]@).push(
                queued_form(t0, old(self).next_id),
            ));
            assert forall|i: int| 0 <= i < 5 implies self.bucket_wf(i) by {
                if i != b {
                    assert(old(self).bucket_wf(i));
                    assert(self.entries(i) == old(self).entries(i));
                }
            }
            lemma_bag_push(old_buckets[b as int]@, e);
            assert(self.pending() =~= old(self).pending().insert(queued_form(t0, old(self).next_id)));
        }
    }

    /// Takes the oldest task of the most urgent non-empty bucket; `None`
    /// when every bucket is empty.
    pub fn dequeue(&mut self) -> (r: Option<Task>)
        requires
            old(self).wf(),
        ensures
            final(self).wf(),
            final(self).agents() == old(self).agents(),
            final(self).next_task_id() == old(self).next_task_id(),
            final(self).next_subagent_id() == old(self).next_subagent_id(),
            final(self).limits() == old(self).limits(),
            old(self).first_nonempty() == 5 ==> r is None && forall|i: int|
                0 <= i < 5 ==> final(self).queue(i) == old(self).queue(i),
            old(self).first_nonempty() < 5 ==> {
                let b = old(self).first_nonempty();
                &&& r == Some(old(self).queue(b)[0])
                &&& final(self).queue(b) == old(self).queue(b).drop_first()
                &&& forall|i: int|
                    0 <= i < 5 && i != b ==> final(self).queue(i) == old(self).queue(i)
            },
            r is Some ==> r->0.state == TaskState::Queued,
            r is Some ==> old(self).pending().count(r->0) > 0 && final(self).pending() == old(self).pending().remove(r->0),
            r is None ==> final(self).pending() == old(self).pending(),
    {
        let mut i: usize = 0;
        while i < BUCKETS
            invariant
                i <= 5,
                self.wf(),
                *self == *old(self),
                forall|j: int| 0 <= j < i ==> self.queue(j).len() == 0,
            decreases 5 - i,
        {
            let ghost old_buckets = self.buckets@;
            proof {
                self.lemma_queue_len(i as int);
            }
            if self.buckets[i].len() > 0 {
                let qt = self.buckets[i].pop_front().unwrap();
                proof {
                    assert(old(self).bucket_wf(i as int));
                    lemma_entries_tail(old_buckets[i as int]@, i as int);
                    assert forall|j: int| 0 <= j < 5 && j != i implies self.buckets@[j]
                        == old_buckets[j] by {}
                    assert(tasks_of(self.buckets@[i as int]@) =~= tasks_of(
                        old_buckets[i as int]@,
                    ).drop_first());
                    assert forall|j: int| 0 <= j < 5 implies self.bucket_wf(j) by {
                        if j != i {
                            assert(old(self).bucket_wf(j));
                            assert(self.entries(j) == old(self).entries(j));
                        }
                    }
                    lemma_bag_front(old_buckets[i as int]@);
                    assert(self.buckets@[i as int]@ == old_buckets[i as int]@.drop_first());
                    assert(old(self).pending() =~= self.pending().insert(qt.task));
                    assert(self.pending() =~= old(self).pending().remove(qt.task));
                }
                return Some(qt.task);
            }
            i = i + 1;
        }
        None
    }

    /// Promotes tasks that waited longer than `age_threshold` by one level:
    /// buckets 4, 3, 2, 1 and 0 are scanned in that order, and on each the
    /// clock is read for every entry, which is then moved as
    /// `promote_bucket` says. A task promoted into a bucket that is scanned
    /// later can be promoted again in the same pass. Which tasks count as
    /// timed out depends on the clock; whatever it says, no task is lost or
    /// added, none moves to a less urgent bucket, and the buckets end as
    /// `aging_pass` gives them for the entries the clock found timed out.
    #[verifier::rlimit(80)]
    pub fn apply_aging(&mut self, age_threshold: Duration)
        requires
            old(self).wf(),
        ensures
            exists|ms: Seq<Seq<bool>>|
                ms.len() == 5 && (forall|t: int|
                    0 <= t < 5 ==> (#[trigger] ms[t]).len() == aging_pass(old(self).bucket_lists(), ms.take(t))[4
                        - t].len()) && #[trigger] final(self).bucket_lists() == aging_pass(
                    old(self).bucket_lists(),
                    ms,
                ),
            final(self).wf(),
            final(self).queued_count() == old(self).queued_count(),
            final(self).pending() == old(self).pending(),
            forall|k: int|
                0 <= k <= 5 ==> #[trigger] final(self).prefix_count(k) >= old(self).prefix_count(
                    k,
                ),
            final(self).agents() == old(self).agents(),
            final(self).next_task_id() == old(self).next_task_id(),
            final(self).next_subagent_id() == old(self).next_subagent_id(),
            final(self).limits() == old(self).limits(),
    {
        let mut idx: usize = 5;
        let ghost mut ms: Seq<Seq<bool>> = Seq::empty();
        while idx > 0
            invariant
                idx <= 5,
                ms.len() == 5 - idx,
                forall|t: int|
                    0 <= t < ms.len() ==> (#[trigger] ms[t]).len() == aging_pass(old(self).bucket_lists(), ms.take(t))[4
                        - t].len(),
                self.bucket_lists() == aging_pass(old(self).bucket_lists(), ms),
                self.wf(),
                self.queued_count() == old(self).queued_count(),
                self.pending() == old(self).pending(),
                forall|k: int| 0 <= k <= 5 ==> #[trigger] self.prefix_count(k) >= old(self).prefix_count(k),
                self.agents() == old(self).agents(),
                self.next_task_id() == old(self).next_task_id(),
                self.next_subagent_id() == old(self).next_subagent_id(),
                self.limits() == old(self).limits(),
            decreases idx,
        {
            idx = idx - 1;
            let ghost pre = *self;
            self.age_bucket(idx, &age_threshold);
            proof {
                let mask = choose|mask: Seq<bool>|
                    mask.len() == pre.bucket_lists()[idx as int].len() && #[trigger] self.bucket_lists()
                        == aging_step(pre.bucket_lists(), idx as int, mask);
                let ms2 = ms.push(mask);
                assert(ms2.drop_last() =~= ms);
                assert(ms2.take(ms.len() as int) =~= ms);
                assert forall|t: int| 0 <= t < ms2.len() implies (#[trigger] ms2[t]).len() == aging_pass(
                    old(self).bucket_lists(),
                    ms2.take(t),
                )[4 - t].len() by {
                    if t < ms.len() {
                        assert(ms2.take(t) =~= ms.take(t));
                        assert(ms2[t] == ms[t]);
                    }
                }
                ms = ms2;
            }
        }
        assert(ms.len() == 5);
    }

    /// One aging pass with the timed-out flags given: `timed_out[t]` marks
    /// the entries of bucket `4 - t` as it stands when its turn comes
    /// (buckets 4, 3, 2, 1, 0 in turn), each step as `promote_bucket` says.
    pub fn promote_timed_out(&mut self, timed_out: &Vec<Vec<bool>>)
        requires
            old(self).wf(),
            timed_out@.len() == 5,
        ensures
            final(self).bucket_lists() == aging_pass(old(self).bucket_lists(), flag_lists(timed_out@)),
            final(self).wf(),
            final(self).queued_count() == old(self).queued_count(),
            final(self).pending() == old(self).pending(),
            forall|k: int|
                0 <= k <= 5 ==> #[trigger] final(self).prefix_count(k) >= old(self).prefix_count(
                    k,
                ),
            final(self).agents() == old(self).agents(),
            final(self).next_task_id() == old(self).next_task_id(),
            final(self).next_subagent_id() == old(self).next_subagent_id(),
            final(self).limits() == old(self).limits(),
    {
        let ghost fl = flag_lists(timed_out@);
        let mut t: usize = 0;
        while t < 5
            invariant
                t <= 5,
                timed_out@.len() == 5,
                fl == flag_lists(timed_out@),
                self.bucket_lists() == aging_pass(old(self).bucket_lists(), fl.take(t as int)),
                self.wf(),
                self.queued_count() == old(self).queued_count(),
                self.pending() == old(self).pending(),
                forall|k: int| 0 <= k <= 5 ==> #[trigger] self.prefix_count(k) >= old(self).prefix_count(k),
                self.agents() == old(self).agents(),
                self.next_task_id() == old(self).next_task_id(),
                self.next_subagent_id() == old(self).next_subagent_id(),
                self.limits() == old(self).limits(),
            decreases 5 - t,
        {
            proof {
                assert(fl.take(t + 1).drop_last() =~= fl.take(t as int));
                assert(fl.take(t + 1).last() == timed_out@[t as int]@);
            }
            self.promote_bucket(4 - t, &timed_out[t]);
            t = t + 1;
        }
        assert(fl.take(5) =~= fl);
    }

    /// The number of tasks waiting in buckets `0..k`.
    pub open spec fn prefix_count(self, k: int) -> nat {
        (if k > 0 { self.queue(0).len() } else { 0 }) + (if k > 1 { self.queue(1).len() } else { 0 })
            + (if k > 2 { self.queue(2).len() } else { 0 }) + (if k > 3 { self.queue(3).len() } else {
            0 }) + (if k > 4 { self.queue(4).len() } else { 0 })
    }

    /// One aging step on bucket `idx`, whose entries the clock found timed
    /// out at the positions `age_threshold` marks: see `promote_bucket`.
    fn age_bucket(&mut self, idx: usize, age_threshold: &Duration)
        requires
            old(self).wf(),
            idx < 5,
        ensures
            exists|mask: Seq<bool>|
                mask.len() == old(self).bucket_lists()[idx as int].len() && #[trigger] final(self).bucket_lists()
                    == aging_step(old(self).bucket_lists(), idx as int, mask),
            final(self).wf(),
            final(self).queued_count() == old(self).queued_count(),
            final(self).pending() == old(self).pending(),
            forall|i: int| idx < i < 5 ==> #[trigger] final(self).queue(i) == old(self).queue(i),
            forall|k: int| 0 <= k <= 5 ==> #[trigger] final(self).prefix_count(k) >= old(self).prefix_count(k),
            final(self).agents() == old(self).agents(),
            final(self).next_task_id() == old(self).next_task_id(),
            final(self).next_subagent_id() == old(self).next_subagent_id(),
            final(self).limits() == old(self).limits(),
    {
        let len = self.buckets[idx].len();
        let mut mask: Vec<bool> = Vec::new();
        let mut k: usize = 0;
        while k < len
            invariant
                k <= len,
                mask@.len() == k,
                len == self.buckets@[idx as int]@.len(),
                self.buckets@.len() == 5,
                idx < 5,
            decreases len - k,
        {
            let timed_out = elapsed_exceeds(&self.buckets[idx][k].enqueued_at, age_threshold);
            mask.push(timed_out);
            k = k + 1;
        }
        proof {
            old(self).lemma_queue_len(idx as int);
            assert(old(self).bucket_lists()[idx as int] == old(self).buckets@[idx as int]@);
        }
        self.promote_bucket(idx, &mask);
    }

    /// One aging step on bucket `idx`, with `timed_out[k]` telling whether
    /// the `k`-th entry of that bucket waited too long (positions past its
    /// end count as not): the timed-out entries leave the bucket, in order,
    /// each with its weight lowered by one (not below zero), and join the
    /// back of the bucket of that weight; the others stay in order. No task
    /// is lost or added, and none moves to a less urgent bucket.
    pub fn promote_bucket(&mut self, idx: usize, timed_out: &Vec<bool>)
        requires
            old(self).wf(),
            idx < 5,
        ensures
            final(self).bucket_lists() == aging_step(old(self).bucket_lists(), idx as int, timed_out@),
            final(self).wf(),
            final(self).queued_count() == old(self).queued_count(),
            final(self).pending() == old(self).pending(),
            forall|i: int| idx < i < 5 ==> #[trigger] final(self).queue(i) == old(self).queue(i),
            forall|k: int| 0 <= k <= 5 ==> #[trigger] final(self).prefix_count(k) >= old(self).prefix_count(k),
            final(self).agents() == old(self).agents(),
            final(self).next_task_id() == old(self).next_task_id(),
            final(self).next_subagent_id() == old(self).next_subagent_id(),
            final(self).limits() == old(self).limits(),
    {
        proof {
            assert forall|i: int| 0 <= i < 5 implies old(self).queue(i).len() == old(self).buckets@[i]@.len() by {
                old(self).lemma_queue_len(i);
            }
        }
        let mut taken: VecDeque<QueuedTask> = VecDeque::new();
        std::mem::swap(&mut taken, &mut self.buckets[idx]);
        let ghost original = taken@;
        let ghost mask: Seq<bool> = timed_out@;
        proof {
            old(self).lemma_queue_len(idx as int);
        }
        let mut n: usize = 0;
        let mut promoted: VecDeque<QueuedTask> = VecDeque::new();
        proof {
            assert(old(self).bucket_wf(idx as int));
            assert(self.buckets@[idx as int]@.len() == 0);
        }
        proof {
            lemma_bag_empty(self.buckets@[idx as int]@);
            lemma_bag_empty(promoted@);
            assert(task_bag(self.buckets@[idx as int]@).add(task_bag(promoted@)).add(task_bag(taken@))
                =~= task_bag(original));
        }
        // Split the bucket into the entries that stay and those that leave.
        while taken.len() > 0
            invariant
                idx < 5,
                mask == timed_out@,
                original.len() <= usize::MAX,
                self.buckets@.len() == 5,
                forall|i: int| 0 <= i < 5 && i != idx ==> self.buckets@[i] == old(self).buckets@[i],
                self.buckets@[idx as int]@.len() + promoted@.len() + taken@.len() == original.len(),
                original.len() == old(self).buckets@[idx as int]@.len(),
                entries_wf(self.buckets@[idx as int]@, idx as int),
                entries_wf(promoted@, idx as int),
                entries_wf(taken@, idx as int),
                task_bag(self.buckets@[idx as int]@).add(task_bag(promoted@)).add(task_bag(taken@))
                    == task_bag(original),
                original == old(self).buckets@[idx as int]@,
                n + taken@.len() == original.len(),
                taken@ == original.skip(n as int),
                self.buckets@[idx as int]@ == kept_part(original.take(n as int), mask),
                promoted@ == aged_part(original.take(n as int), mask),
                self.subagents == old(self).subagents,
                self.next_id == old(self).next_id,
                self.next_agent_id == old(self).next_agent_id,
                self.limits == old(self).limits,
            decreases taken@.len(),
        {
            let ghost before = taken@;
            let ghost pbefore = promoted@;
            let ghost kbefore = self.buckets@[idx as int]@;
            proof {
                lemma_entries_tail(before, idx as int);
                lemma_bag_front(before);
            }
            let qt = taken.pop_front().unwrap();
            assert(taken@ == before.drop_first());
            proof {
                assert(qt == original[n as int]);
                assert(original.take(n + 1).drop_last() =~= original.take(n as int));
                assert(original.take(n + 1).last() == qt);
                assert(taken@ =~= original.skip(n + 1));
            }
            let marked = n < timed_out.len() && timed_out[n];
            assert(marked == flag(mask, n as int));
            if marked {
                proof {
                    assert(kept_part(original.take(n + 1), mask) == kept_part(original.take(n as int), mask));
                    assert(aged_part(original.take(n + 1), mask) == aged_part(original.take(n as int), mask).push(qt));
                }
                proof {
                    lemma_entries_push(pbefore, qt, idx as int);
                    lemma_bag_push(pbefore, qt);
                }
                promoted.push_back(qt);
                assert(task_bag(self.buckets@[idx as int]@).add(task_bag(promoted@)).add(task_bag(taken@))
                    =~= task_bag(original));
            } else {
                proof {
                    assert(kept_part(original.take(n + 1), mask) == kept_part(original.take(n as int), mask).push(qt));
                    assert(aged_part(original.take(n + 1), mask) == aged_part(original.take(n as int), mask));
                    lemma_entries_push(kbefore, qt, idx as int);
                    lemma_bag_push(kbefore, qt);
                }
                self.buckets[idx].push_back(qt);
                assert(task_bag(self.buckets@[idx as int]@).add(task_bag(promoted@)).add(task_bag(taken@))
                    =~= task_bag(original));
            }
            n = n + 1;
        }
        let ghost kept_len = self.buckets@[idx as int]@.len();
        let ghost kept = self.buckets@[idx as int]@;
        let ghost aged = promoted@;
        let ghost mid_buckets = self.buckets@;
        proof {
            assert(original.take(n as int) =~= original);
        }
        proof {
            assert forall|i: int| 0 <= i < 5 implies self.bucket_wf(i) by {
                if i != idx {
                    assert(old(self).bucket_wf(i));
                    assert(self.entries(i) == old(self).entries(i));
                } else {
                    assert(self.entries(i) == self.buckets@[idx as int]@);
                }
            }
            lemma_bag_empty(taken@);
            assert(self.pending().add(task_bag(promoted@)) =~= old(self).pending());
        }
        // Each promoted entry joins the bucket of its lowered weight.
        while promoted.len() > 0
            invariant
                idx < 5,
                self.buckets@.len() == 5,
                entries_wf(promoted@, idx as int),
                forall|i: int| 0 <= i < 5 ==> self.bucket_wf(i),
                forall|i: int| idx < i < 5 ==> self.buckets@[i] == old(self).buckets@[i],
                self.buckets@[0]@.len() + self.buckets@[1]@.len() + self.buckets@[2]@.len()
                    + self.buckets@[3]@.len() + self.buckets@[4]@.len() + promoted@.len()
                    == old(self).queued_count(),
                self.pending().add(task_bag(promoted@)) == old(self).pending(),
                forall|k: int|
                    0 <= k < idx ==> self.buckets@[k]@.len() >= old(self).buckets@[k]@.len(),
                aged.len() >= promoted@.len(),
                promoted@ == aged.skip(aged.len() - promoted@.len()),
                forall|j: int|
                    0 <= j < 5 ==> #[trigger] self.buckets@[j]@ == (if j == idx {
                        kept
                    } else {
                        old(self).buckets@[j]@
                    }) + lowered_into(aged.take(aged.len() - promoted@.len()), j),
                self.subagents == old(self).subagents,
                self.next_id == old(self).next_id,
                self.next_agent_id == old(self).next_agent_id,
                self.limits == old(self).limits,
            decreases promoted@.len(),
        {
            let ghost before = promoted@;
            proof {
                lemma_entries_tail(before, idx as int);
                lemma_bag_front(before);
            }
            let qt = promoted.pop_front().unwrap();
            assert(promoted@ == before.drop_first());
            let ghost m = aged.len() - before.len();
            proof {
                assert(qt == aged[m]);
                assert(aged.take(m + 1).drop_last() =~= aged.take(m));
                assert(aged.take(m + 1).last() == qt);
                assert(promoted@ =~= aged.skip(m + 1));
            }
            let eff = qt.effective_priority.saturating_sub(1);
            let target = priority_to_bucket_index(eff);
            assert(target <= idx);
            let entry = QueuedTask { task: qt.task, enqueued_at: qt.enqueued_at, effective_priority: eff };
            let ghost e = entry;
            let ghost bs = self.buckets@;
            let ghost pre = *self;
            proof {
                assert(self.bucket_wf(target as int));
                lemma_entries_push(bs[target as int]@, e, target as int);
            }
            self.buckets[target].push_back(entry);
            proof {
                assert(e == lowered(qt));
                assert forall|j: int| 0 <= j < 5 implies #[trigger] self.buckets@[j]@ == (if j == idx {
                    kept
                } else {
                    old(self).buckets@[j]@
                }) + lowered_into(aged.take(m + 1), j) by {
                    let base = if j == idx { kept } else { old(self).buckets@[j]@ };
                    if j == target {
                        assert(lowered_into(aged.take(m + 1), j) == lowered_into(aged.take(m), j).push(e));
                        assert(self.buckets@[j]@ == bs[j]@.push(e));
                        assert(base + lowered_into(aged.take(m), j).push(e) =~= (base + lowered_into(
                            aged.take(m),
                            j,
                        )).push(e));
                    } else {
                        assert(lowered_into(aged.take(m + 1), j) == lowered_into(aged.take(m), j));
                        assert(self.buckets@[j] == bs[j]);
                    }
                }
                lemma_bag_push(bs[target as int]@, e);
                assert(self.pending().add(task_bag(promoted@)) =~= pre.pending().add(task_bag(before)));
                assert forall|i: int| 0 <= i < 5 implies self.bucket_wf(i) by {
                    if i != target {
                        assert(pre.bucket_wf(i));
                        assert(self.entries(i) == pre.entries(i));
                    } else {
                        assert(self.entries(i) == bs[target as int]@.push(e));
                    }
                }
            }
        }
        proof {
            assert forall|i: int| 0 <= i < 5 implies self.queue(i).len() == self.buckets@[i]@.len() by {}
            assert forall|i: int| idx < i < 5 implies #[trigger] self.queue(i) == old(self).queue(i) by {}
            lemma_bag_empty(promoted@);
            assert(self.pending() =~= self.pending().add(task_bag(promoted@)));
            assert(aged.take(aged.len() as int) =~= aged);
            let after = aging_step(old(self).bucket_lists(), idx as int, mask);
            assert(old(self).bucket_lists()[idx as int] == original);
            assert forall|j: int| 0 <= j < 5 implies self.bucket_lists()[j] == after[j] by {
                assert(self.buckets@[j]@ == (if j == idx {
                    kept
                } else {
                    old(self).buckets@[j]@
                }) + lowered_into(aged.take(aged.len() - promoted@.len()), j));
            }
            assert(self.bucket_lists() =~= after);
        }
    }

    /// Registers a new idle sub-agent under the next sub-agent id and
    /// returns that id. A sub-agent already registered under the same id
    /// (possible only once the id counter has wrapped) is replaced.
    #[verifier::loop_isolation(false)]
    pub fn register_subagent(&mut self) -> (id: u64)
        requires
            old(self).wf(),
        ensures
            final(self).wf(),
            id == old(self).next_subagent_id(),
            final(self).next_subagent_id() == old(self).next_subagent_id().wrapping_add(1),
            final(self).agent(id) is Some,
            is_fresh_agent(final(self).agent(id)->0, id),
            forall|other: u64| other != id ==> final(self).agent(other) == old(self).agent(other),
            final(self).agents().len() == old(self).agents().len() + (if old(self).agent(id) is Some {
                0int
            } else {
                1int
            }),
            forall|i: int| 0 <= i < 5 ==> final(self).queue(i) == old(self).queue(i),
            final(self).next_task_id() == old(self).next_task_id(),
            final(self).limits() == old(self).limits(),
    {
        let id = self.next_agent_id;
        self.next_agent_id = self.next_agent_id.wrapping_add(1);
        let info = SubAgentInfo {
            id,
            state: SubAgentState::Idle,
            current_tasks: 0,
            max_concurrent: 8,
            started_at: now(),
            last_heartbeat: now(),
            total_completed: 0,
            total_failed: 0,
            avg_completion_time: zero(),
            loaded_resources: Vec::new(),
            recent_task_types: Vec::new(),
        };
        let ghost fresh = info;
        let ghost olds = self.subagents@;
        let mut i: usize = 0;
        while i < self.subagents.len()
            invariant
                i <= self.subagents@.len(),
                self.subagents@ == olds,
                forall|k: int| 0 <= k < i ==> olds[k].id != id,
                self.next_agent_id == old(self).next_agent_id.wrapping_add(1),
                self.buckets == old(self).buckets,
                self.next_id == old(self).next_id,
                self.limits == old(self).limits,
            decreases self.subagents@.len() - i,
        {
            if self.subagents[i].id == id {
                self.subagents.set(i, info);
                proof {
                    assert(self.subagents@ == olds.update(i as int, fresh));
                    assert(self.subagents@[i as int].id == id);
                    assert(self.agent(id) is Some);
                    assert forall|q: int| 0 <= q < 5 implies self.bucket_wf(q) by {
                        assert(old(self).bucket_wf(q));
                        assert(self.entries(q) == old(self).entries(q));
                    }
                    assert(self.queued_count() == old(self).queued_count());
                    let k = choose|k: int| 0 <= k < self.agents().len() && self.agents()[k].id == id;
                    assert(k == i);
                    assert(old(self).agent(id) is Some);
                    assert forall|other: u64| other != id implies self.agent(other) == old(self).agent(other) by {
                        if exists|k: int| 0 <= k < olds.len() && olds[k].id == other {
                            let k1 = choose|k: int| 0 <= k < olds.len() && olds[k].id == other;
                            assert(self.agents()[k1].id == other);
                            let k2 = choose|k: int| 0 <= k < self.agents().len() && self.agents()[k].id == other;
                            assert(k1 == k2);
                        } else {
                            if exists|k: int| 0 <= k < self.agents().len() && self.agents()[k].id == other {
                                let k2 = choose|k: int| 0 <= k < self.agents().len() && self.agents()[k].id == other;
                                assert(olds[k2].id == other);
                            }
                        }
                    }
                }
                return id;
            }
            i = i + 1;
        }
        self.subagents.push(info);
        proof {
            assert(self.subagents@ == olds.push(fresh));
            assert(self.agents()[olds.len() as int].id == id);
            assert forall|q: int| 0 <= q < 5 implies self.bucket_wf(q) by {
                assert(old(self).bucket_wf(q));
                assert(self.entries(q) == old(self).entries(q));
            }
            assert(self.queued_count() == old(self).queued_count());
            let k = choose|k: int| 0 <= k < self.agents().len() && self.agents()[k].id == id;
            assert(k == olds.len());
            assert(old(self).agent(id) is None);
            assert forall|other: u64| other != id implies self.agent(other) == old(self).agent(other) by {
                if exists|k: int| 0 <= k < olds.len() && olds[k].id == other {
                    let k1 = choose|k: int| 0 <= k < olds.len() && olds[k].id == other;
                    assert(self.agents()[k1].id == other);
                    let k2 = choose|k: int| 0 <= k < self.agents().len() && self.agents()[k].id == other;
                    assert(k1 == k2);
                } else {
                    if exists|k: int| 0 <= k < self.agents().len() && self.agents()[k].id == other {
                        let k2 = choose|k: int| 0 <= k < self.agents().len() && self.agents()[k].id == other;
                        assert(olds[k2].id == other);
                    }
                }
            }
        }
        id
    }

    /// Whether agent `k` is the first, in registration order, among the
    /// agents that can take work and carry the fewest current tasks.
    pub open spec fn is_best_agent(self, k: int) -> bool {
        &&& 0 <= k < self.agents().len()
        &&& can_take_work(self.agents()[k])
        &&& forall|j: int|
            0 <= j < self.agents().len() && can_take_work(#[trigger] self.agents()[j]) ==> self.agents()[k].current_tasks
                <= self.agents()[j].current_tasks
        &&& forall|j: int|
            0 <= j < k && can_take_work(#[trigger] self.agents()[j]) ==> self.agents()[k].current_tasks
                < self.agents()[j].current_tasks
    }

    /// Assigns a task to the least loaded sub-agent that can take work (the
    /// earliest registered one among equally loaded ones): the task records
    /// that agent and becomes `Running`, and the agent's id is returned.
    /// With no such agent the task is left as it is and `None` comes back.
    pub fn assign(&self, task: &mut Task) -> (r: Option<u64>)
        requires
            self.wf(),
        ensures
            (forall|j: int| 0 <= j < self.agents().len() ==> !can_take_work(#[trigger] self.agents()[j]))
                ==> r is None && *final(task) == *old(task),
            (exists|j: int| 0 <= j < self.agents().len() && can_take_work(#[trigger] self.agents()[j]))
                ==> exists|k: int|
                self.is_best_agent(k) && r == Some(self.agents()[k].id) && *final(task)
                    == assigned_form(*old(task), self.agents()[k].id),
    {
        let mut best: Option<usize> = None;
        let mut i: usize = 0;
        while i < self.subagents.len()
            invariant
                i <= self.subagents@.len(),
                best_among(self.subagents@, i as int, best),
            decreases self.subagents@.len() - i,
        {
            let a = &self.subagents[i];
            if a.state == SubAgentState::Idle || a.state == SubAgentState::Busy {
                match best {
                    None => {
                        best = Some(i);
                    },
                    Some(b) => {
                        if a.current_tasks < self.subagents[b].current_tasks {
                            best = Some(i);
                        }
                    },
                }
            }
            i = i + 1;
        }
        match best {
            None => None,
            Some(b) => {
                let id = self.subagents[b].id;
                task.assigned_to = Some(id);
                task.state = TaskState::Running;
                assert(self.is_best_agent(b as int));
                Some(id)
            },
        }
    }

    /// Queued tasks, registered sub-agents, and idle sub-agents.
    pub fn status(&self) -> (st: SchedulerStatus)
        requires
            self.wf(),
        ensures
            st.queued_tasks == self.queued_count(),
            st.active_subagents == self.agents().len(),
            st.idle_subagents == self.agents().filter(|a: SubAgentInfo| a.state == SubAgentState::Idle).len(),
    {
        proof {
            assert forall|i: int| 0 <= i < 5 implies self.queue(i).len() == self.buckets@[i]@.len() by {
                self.lemma_queue_len(i);
            }
        }
        let total = self.buckets[0].len() + self.buckets[1].len() + self.buckets[2].len()
            + self.buckets[3].len() + self.buckets[4].len();
        let mut idle: usize = 0;
        let mut i: usize = 0;
        let ghost pred = |a: SubAgentInfo| a.state == SubAgentState::Idle;
        while i < self.subagents.len()
            invariant
                i <= self.subagents@.len(),
                pred == (|a: SubAgentInfo| a.state == SubAgentState::Idle),
                idle == self.subagents@.take(i as int).filter(pred).len(),
                idle <= i,
            decreases self.subagents@.len() - i,
        {
            proof {
                reveal(Seq::filter);
                let t = self.subagents@.take(i + 1);
                assert(t.drop_last() =~= self.subagents@.take(i as int));
                assert(t.last() == self.subagents@[i as int]);
                assert(t.filter(pred) == if pred(self.subagents@[i as int]) {
                    self.subagents@.take(i as int).filter(pred).push(self.subagents@[i as int])
                } else {
                    self.subagents@.take(i as int).filter(pred)
                });
            }
            if self.subagents[i].state == SubAgentState::Idle {
                assert(pred(self.subagents@[i as int]));
                idle = idle + 1;
            } else {
                assert(!pred(self.subagents@[i as int]));
            }
            assert(idle == self.subagents@.take(i + 1).filter(pred).len());
            i = i + 1;
        }
        assert(self.subagents@.take(self.subagents@.len() as int) =~= self.subagents@);
        SchedulerStatus { queued_tasks: total, active_subagents: self.subagents.len(), idle_subagents: idle }
    }
}

} // verus!
