//! The memory mesh's bookkeeping that involves no strengths: where a
//! memory is stored, which memories an agent may see, the mesh's
//! statistics, and the parts of a meditation that only count.
use vstd::prelude::*;
use crate::types::{MemoryCategory, MemoryScope, OwnerId, SubAgentType};
use crate::clock::{elapsed_exceeds, secs};
use std::time::{Duration, Instant};
use crate::text::{chars_of, decimal, decimal_chars, extend_chars, extend_str, string_of};

verus! {

/// Counts of the memory mesh.
#[derive(Debug, Clone, Copy, PartialEq, Eq, Structural)]
pub struct MemoryStats {
    pub global_count: usize,
    pub scene_count: usize,
    pub total_entries: usize,
}

/// The sum of a list of counts.
pub open spec fn total(counts: Seq<usize>) -> int
    decreases counts.len(),
{
    if counts.len() == 0 {
        0
    } else {
        total(counts.drop_last()) + counts.last()
    }
}

proof fn lemma_total_prefix(counts: Seq<usize>, i: int)
    requires
        0 <= i <= counts.len(),
    ensures
        total(counts.take(i)) <= total(counts),
    decreases counts.len() - i,
{
    if i < counts.len() {
        lemma_total_prefix(counts, i + 1);
        assert(counts.take(i + 1).drop_last() =~= counts.take(i));
    } else {
        assert(counts.take(i) =~= counts);
    }
}

impl MemoryStats {
    /// The statistics of a mesh holding `global` global memories and
    /// loaded scenes with `scenes[k]` memories each.
    pub fn of(global: usize, scenes: &Vec<usize>) -> (r: Self)
        requires
            global + total(scenes@) <= usize::MAX,
        ensures
            r.global_count == global,
            r.scene_count == scenes@.len(),
            r.total_entries == global + total(scenes@),
    {
        let mut sum: usize = 0;
        let mut i: usize = 0;
        while i < scenes.len()
            invariant
                i <= scenes@.len(),
                sum == total(scenes@.take(i as int)),
                global + total(scenes@) <= usize::MAX,
            decreases scenes@.len() - i,
        {
            proof {
                assert(scenes@.take(i + 1).drop_last() =~= scenes@.take(i as int));
                lemma_total_prefix(scenes@, i + 1);
            }
            sum = sum + scenes[i];
            i = i + 1;
        }
        assert(scenes@.take(scenes@.len() as int) =~= scenes@);
        MemoryStats { global_count: global, scene_count: scenes.len(), total_entries: global + sum }
    }
}

/// Where a new memory goes: into the global list, into a scene's list, or
/// (for a memory shared by some scenes only) nowhere.
#[derive(Debug, Clone, Copy, PartialEq, Eq, Structural)]
pub enum StoreTarget {
    Global,
    Scene(u64),
}

/// Where a memory of this scope is stored.
pub open spec fn store_target_of(scope: MemoryScope) -> Option<StoreTarget> {
    match scope {
        MemoryScope::All => Some(StoreTarget::Global),
        MemoryScope::Single(id) => Some(StoreTarget::Scene(id)),
        MemoryScope::Partial(_) => None,
    }
}

/// Decides where a memory of scope `scope` is stored.
pub fn store_target(scope: &MemoryScope) -> (r: Option<StoreTarget>)
    ensures
        r == store_target_of(*scope),
{
    match scope {
        MemoryScope::All => Some(StoreTarget::Global),
        MemoryScope::Single(id) => Some(StoreTarget::Scene(*id)),
        MemoryScope::Partial(_) => None,
    }
}

/// Whether a memory with these owners and this sub-agent type is visible
/// to `owner`, working as `subagent` (if any): some owner is `All` or
/// `owner` itself, and a memory of another sub-agent type than `subagent`
/// is visible only when it is general.
pub open spec fn visible(owners: Seq<OwnerId>, mem_type: SubAgentType, owner: OwnerId, subagent: Option<SubAgentType>) -> bool {
    &&& exists|k: int| 0 <= k < owners.len() && (owners[k] == OwnerId::All || owners[k] == owner)
    &&& match subagent {
        Some(st) => mem_type == st || mem_type == SubAgentType::General,
        None => true,
    }
}

/// Visibility, owner by owner: a memory is visible to `owner` as soon as
/// any one of its owners is `owner` or everyone, provided the sub-agent
/// type passes (no sub-agent, the same type, or a general memory); it is
/// hidden when none of its owners is, and hidden from a sub-agent of
/// another type when it is not general.
pub proof fn lemma_visible_by_owner(
    owners: Seq<OwnerId>,
    mem_type: SubAgentType,
    owner: OwnerId,
    subagent: Option<SubAgentType>,
    k: int,
)
    ensures
        0 <= k < owners.len() && (owners[k] == owner || owners[k] == OwnerId::All) && (subagent is None
            || subagent == Some(mem_type) || mem_type == SubAgentType::General) ==> visible(
            owners,
            mem_type,
            owner,
            subagent,
        ),
        (forall|j: int| 0 <= j < owners.len() ==> #[trigger] owners[j] != owner && owners[j] != OwnerId::All)
            ==> !visible(owners, mem_type, owner, subagent),
        subagent is Some && subagent != Some(mem_type) && mem_type != SubAgentType::General ==> !visible(
            owners,
            mem_type,
            owner,
            subagent,
        ),
{
}

/// Decides whether a memory is visible to an agent.
pub fn is_visible(owners: &Vec<OwnerId>, mem_type: SubAgentType, owner: OwnerId, subagent: Option<SubAgentType>) -> (r: bool)
    ensures
        r == visible(owners@, mem_type, owner, subagent),
        forall|k: int|
            0 <= k < owners@.len() && (#[trigger] owners@[k] == owner || owners@[k] == OwnerId::All) && (
            subagent is None || subagent == Some(mem_type) || mem_type == SubAgentType::General) ==> r,
{
    let mut found = false;
    let mut i: usize = 0;
    while i < owners.len()
        invariant
            i <= owners@.len(),
            found == exists|k: int| 0 <= k < i && (owners@[k] == OwnerId::All || owners@[k] == owner),
        decreases owners@.len() - i,
    {
        if owners[i] == OwnerId::All || owners[i] == owner {
            found = true;
        }
        i = i + 1;
    }
    if !found {
        return false;
    }
    match subagent {
        Some(st) => mem_type == st || mem_type == SubAgentType::General,
        None => true,
    }
}

// ───────────────────────── meditation ─────────────────────────

/// Whether a meditation is due: the last interaction was longer ago than
/// `idle_threshold`, the last meditation more than an hour ago, and none
/// is running. Both ages are read from the clock, so only this is stated:
/// no meditation is due while one is running.
pub fn should_meditate(
    last_interaction: &Instant,
    last_meditation: &Instant,
    idle_threshold: &Duration,
    running: bool,
) -> (r: bool)
    ensures
        r ==> !running,
{
    let idle = elapsed_exceeds(last_interaction, idle_threshold);
    let cooled = elapsed_exceeds(last_meditation, &secs(3600));
    idle && cooled && !running
}

/// How many memories a meditation scans for duplicates: 50 when more than
/// 10 000 memories are held, 100 otherwise.
pub fn dedup_limit(count: usize) -> (r: usize)
    ensures
        r == (if count > 10_000 { 50usize } else { 100usize }),
{
    if count > 10_000 { 50 } else { 100 }
}

/// How many of the memories belong to scene `s` alone.
pub open spec fn scene_tally(scopes: Seq<MemoryScope>, s: u64) -> nat
    decreases scopes.len(),
{
    if scopes.len() == 0 {
        0
    } else {
        scene_tally(scopes.drop_last(), s) + if scopes.last() == MemoryScope::Single(s) { 1nat } else { 0nat }
    }
}

/// The scenes with at least three memories of their own: the scene
/// relations a meditation discovers.
pub open spec fn related_scenes(scopes: Seq<MemoryScope>) -> Set<u64> {
    Set::new(|s: u64| scene_tally(scopes, s) >= 3)
}

/// Counts the memories among the first `upto` that belong to scene `s`
/// alone.
fn tally_upto(scopes: &Vec<MemoryScope>, s: u64, upto: usize) -> (r: usize)
    requires
        upto <= scopes@.len(),
    ensures
        r == scene_tally(scopes@.take(upto as int), s),
{
    let mut n: usize = 0;
    let mut j: usize = 0;
    while j < upto
        invariant
            j <= upto <= scopes@.len(),
            n == scene_tally(scopes@.take(j as int), s),
            n <= j,
        decreases upto - j,
    {
        assert(scopes@.take(j + 1).drop_last() =~= scopes@.take(j as int));
        let hit = match &scopes[j] {
            MemoryScope::Single(t) => *t == s,
            _ => false,
        };
        if hit {
            n = n + 1;
        }
        j = j + 1;
    }
    n
}

/// The number of scenes with at least three memories of their own.
pub fn related_scene_count(scopes: &Vec<MemoryScope>) -> (r: usize)
    ensures
        r == related_scenes(scopes@).len(),
        related_scenes(scopes@).finite(),
{
    let n = scopes.len();
    let mut hits: Vec<u64> = Vec::new();
    let mut i: usize = 0;
    while i < n
        invariant
            i <= n == scopes@.len(),
            hits@.no_duplicates(),
            hits@.len() <= i,
            hits@.to_set() == Set::new(
                |t: u64| scene_tally(scopes@, t) >= 3 && scene_tally(scopes@.take(i as int), t) > 0,
            ),
        decreases n - i,
    {
        let ghost before = hits@;
        let ghost pre = scopes@.take(i as int);
        proof {
            assert(scopes@.take(i + 1).drop_last() =~= pre);
        }
        match &scopes[i] {
            MemoryScope::Single(s) => {
                let s = *s;
                let seen = tally_upto(scopes, s, i);
                if seen == 0 {
                    let total = tally_upto(scopes, s, n);
                    assert(scopes@.take(n as int) =~= scopes@);
                    if total >= 3 {
                        proof {
                            assert(!before.contains(s)) by {
                                if before.contains(s) {
                                    assert(before.to_set().contains(s));
                                }
                            }
                        }
                        hits.push(s);
                        proof {
                            assert forall|a: int, b: int| 0 <= a < b < hits@.len() implies hits@[a] != hits@[b] by {
                                if b == hits@.len() - 1 {
                                    assert(before.contains(before[a]));
                                }
                            }
                            assert(hits@ == before.push(s));
                            before.lemma_push_to_set_commute(s);
                        }
                    }
                }
                proof {
                    assert(hits@.to_set() =~= Set::new(
                        |t: u64| scene_tally(scopes@, t) >= 3 && scene_tally(scopes@.take(i + 1), t) > 0,
                    ));
                }
            },
            _ => {
                proof {
                    assert(hits@.to_set() =~= Set::new(
                        |t: u64| scene_tally(scopes@, t) >= 3 && scene_tally(scopes@.take(i + 1), t) > 0,
                    ));
                }
            },
        }
        i = i + 1;
    }
    proof {
        assert(scopes@.take(n as int) =~= scopes@);
        assert(hits@.to_set() =~= related_scenes(scopes@));
        hits@.unique_seq_to_set();
        vstd::seq_lib::seq_to_set_is_finite(hits@);
    }
    hits.len()
}

/// The lines of a meditation's report: what was merged, strengthened,
/// cleaned, extracted, discovered and predicted, and how many memories
/// await confirmation.
pub open spec fn meditation_lines(
    merged: nat,
    strengthened: nat,
    cleaned: nat,
    extracted: nat,
    discoveries: nat,
    predicted: nat,
    pending: nat,
) -> Seq<Seq<char>> {
    seq![
        "合并 "@ + decimal(merged) + " 条重复记忆"@,
        "强化 "@ + decimal(strengthened) + " 条高频记忆"@,
        "清理 "@ + decimal(cleaned) + " 条低信任记忆"@,
        "提炼 "@ + decimal(extracted) + " 条经验为通用知识"@,
        "发现 "@ + decimal(discoveries) + " 个场景关联"@,
        "预判 "@ + decimal(predicted) + " 个可能需求"@,
        decimal(pending) + " 条记忆待确认"@,
    ]
}

/// `head`, the number `n`, then `tail`.
fn number_line(head: &str, n: usize, tail: &str) -> (r: String)
    ensures
        r@ == head@ + decimal(n as nat) + tail@,
{
    let mut v = chars_of(head);
    let d = decimal_chars(n as u64);
    extend_chars(&mut v, &d);
    extend_str(&mut v, tail);
    string_of(&v)
}

/// Writes the lines of a meditation's report.
pub fn meditation_details(
    merged: usize,
    strengthened: usize,
    cleaned: usize,
    extracted: usize,
    discoveries: usize,
    predicted: usize,
    pending: usize,
) -> (r: Vec<String>)
    ensures
        r@.map_values(|l: String| l@) == meditation_lines(
            merged as nat,
            strengthened as nat,
            cleaned as nat,
            extracted as nat,
            discoveries as nat,
            predicted as nat,
            pending as nat,
        ),
{
    let v = vec![
        number_line("合并 ", merged, " 条重复记忆"),
        number_line("强化 ", strengthened, " 条高频记忆"),
        number_line("清理 ", cleaned, " 条低信任记忆"),
        number_line("提炼 ", extracted, " 条经验为通用知识"),
        number_line("发现 ", discoveries, " 个场景关联"),
        number_line("预判 ", predicted, " 个可能需求"),
        number_line("", pending, " 条记忆待确认"),
    ];
    proof {
        reveal_strlit("");
        assert(""@ + decimal(pending as nat) + " 条记忆待确认"@ =~= decimal(pending as nat) + " 条记忆待确认"@);
        assert(v@.map_values(|l: String| l@) =~= meditation_lines(
            merged as nat,
            strengthened as nat,
            cleaned as nat,
            extracted as nat,
            discoveries as nat,
            predicted as nat,
            pending as nat,
        ));
    }
    v
}

/// Whether a memory, by its category and scope, is an experience of scene
/// `s` alone.
pub open spec fn is_experience_of(e: (MemoryCategory, MemoryScope), s: u64) -> bool {
    e.0 == MemoryCategory::Experience && e.1 == MemoryScope::Single(s)
}

/// How many of the memories are experiences of scene `s` alone.
pub open spec fn experience_tally(es: Seq<(MemoryCategory, MemoryScope)>, s: u64) -> nat
    decreases es.len(),
{
    if es.len() == 0 {
        0
    } else {
        experience_tally(es.drop_last(), s) + if is_experience_of(es.last(), s) { 1nat } else { 0nat }
    }
}

/// The positions of the experiences of scene `s`, in order.
pub open spec fn experience_positions_of(es: Seq<(MemoryCategory, MemoryScope)>, s: u64) -> Seq<usize>
    decreases es.len(),
{
    if es.len() == 0 {
        Seq::empty()
    } else if is_experience_of(es.last(), s) {
        experience_positions_of(es.drop_last(), s).push((es.len() - 1) as usize)
    } else {
        experience_positions_of(es.drop_last(), s)
    }
}

/// Counts the experiences of scene `s` among the first `upto` memories.
fn experience_tally_upto(es: &Vec<(MemoryCategory, MemoryScope)>, s: u64, upto: usize) -> (r: usize)
    requires
        upto <= es@.len(),
    ensures
        r == experience_tally(es@.take(upto as int), s),
{
    let mut n: usize = 0;
    let mut j: usize = 0;
    while j < upto
        invariant
            j <= upto <= es@.len(),
            n == experience_tally(es@.take(j as int), s),
            n <= j,
        decreases upto - j,
    {
        assert(es@.take(j + 1).drop_last() =~= es@.take(j as int));
        let e = &es[j];
        let hit = e.0 == MemoryCategory::Experience && match &e.1 {
            MemoryScope::Single(t) => *t == s,
            _ => false,
        };
        if hit {
            n = n + 1;
        }
        j = j + 1;
    }
    n
}

/// The scenes whose experiences a meditation distils: those with at least
/// `min` experiences of their own, each once.
pub fn experience_scenes(es: &Vec<(MemoryCategory, MemoryScope)>, min: usize) -> (r: Vec<u64>)
    ensures
        r@.no_duplicates(),
        r@.to_set() == Set::new(|s: u64| experience_tally(es@, s) >= min && experience_tally(es@, s) > 0),
{
    let n = es.len();
    let mut hits: Vec<u64> = Vec::new();
    let mut i: usize = 0;
    while i < n
        invariant
            i <= n == es@.len(),
            hits@.no_duplicates(),
            hits@.to_set() == Set::new(
                |t: u64| experience_tally(es@, t) >= min && experience_tally(es@.take(i as int), t) > 0,
            ),
        decreases n - i,
    {
        let ghost before = hits@;
        proof {
            assert(es@.take(i + 1).drop_last() =~= es@.take(i as int));
        }
        let e = &es[i];
        let scene = if e.0 == MemoryCategory::Experience {
            match &e.1 {
                MemoryScope::Single(t) => Some(*t),
                _ => None,
            }
        } else {
            None
        };
        match scene {
            Some(s) => {
                let seen = experience_tally_upto(es, s, i);
                if seen == 0 {
                    let total = experience_tally_upto(es, s, n);
                    assert(es@.take(n as int) =~= es@);
                    if total >= min {
                        proof {
                            assert(!before.contains(s)) by {
                                if before.contains(s) {
                                    assert(before.to_set().contains(s));
                                }
                            }
                        }
                        hits.push(s);
                        proof {
                            assert forall|a: int, b: int| 0 <= a < b < hits@.len() implies hits@[a] != hits@[b] by {
                                if b == hits@.len() - 1 {
                                    assert(before.contains(before[a]));
                                }
                            }
                            assert(hits@ == before.push(s));
                            before.lemma_push_to_set_commute(s);
                        }
                    }
                }
            },
            None => {},
        }
        proof {
            assert(hits@.to_set() =~= Set::new(
                |t: u64| experience_tally(es@, t) >= min && experience_tally(es@.take(i + 1), t) > 0,
            ));
        }
        i = i + 1;
    }
    proof {
        assert(es@.take(n as int) =~= es@);
        assert(hits@.to_set() =~= Set::new(
            |s: u64| experience_tally(es@, s) >= min && experience_tally(es@, s) > 0,
        ));
    }
    hits
}

/// The positions of scene `s`'s experiences, in order.
pub fn experience_positions(es: &Vec<(MemoryCategory, MemoryScope)>, s: u64) -> (r: Vec<usize>)
    ensures
        r@ == experience_positions_of(es@, s),
{
    let mut r: Vec<usize> = Vec::new();
    let mut j: usize = 0;
    while j < es.len()
        invariant
            j <= es@.len(),
            r@ == experience_positions_of(es@.take(j as int), s),
        decreases es@.len() - j,
    {
        assert(es@.take(j + 1).drop_last() =~= es@.take(j as int));
        let e = &es[j];
        let hit = e.0 == MemoryCategory::Experience && match &e.1 {
            MemoryScope::Single(t) => *t == s,
            _ => false,
        };
        if hit {
            r.push(j);
        }
        j = j + 1;
    }
    assert(es@.take(es@.len() as int) =~= es@);
    r
}

} // verus!
