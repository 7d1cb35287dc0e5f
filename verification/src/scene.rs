//! Scenes: named working contexts (a project, a directory tree) between
//! which the runtime switches, loading the full memory of the scene it
//! enters and unloading that of the scene it leaves.
use vstd::prelude::*;
use std::path::Path;
use std::time::{Duration, Instant};
use crate::clock::{duration_millis, elapsed_below, millis, now};
use crate::text::str_eq;

verus! {

/// Whether `base` is a prefix of `path`, component by component
/// (`Path::starts_with`).
pub uninterp spec fn path_has_prefix(path: Seq<char>, base: Seq<char>) -> bool;

/// The last component of `path`, if it is a normal one (`Path::file_name`).
pub uninterp spec fn path_last_name(path: Seq<char>) -> Option<Seq<char>>;

/// Whether `s` holds no backslash (a separator only on Windows).
pub open spec fn no_backslash(s: Seq<char>) -> bool {
    forall|i: int| 0 <= i < s.len() ==> s[i] != '\\'
}

/// Whether `c` is an ASCII letter or digit.
pub open spec fn is_ascii_alnum(c: char) -> bool {
    ('0' <= c && c <= '9') || ('a' <= c && c <= 'z') || ('A' <= c && c <= 'Z')
}

/// Whether `path` lies below the directory `dir`: it is `dir`, a `/`, and
/// more, with no backslash.
pub open spec fn below_dir(path: Seq<char>, dir: Seq<char>) -> bool {
    &&& no_backslash(path)
    &&& path.len() > dir.len()
    &&& path.take(dir.len() as int) == dir
    &&& path[dir.len() as int] == '/'
}

/// Whether `path` only extends the last name of `dir`: `dir` ends with a
/// letter or digit, and `path` is `dir` followed by another one and more,
/// with no backslash (as `/tmpfoo` extends `/tmp`).
pub open spec fn name_extends(path: Seq<char>, dir: Seq<char>) -> bool {
    &&& no_backslash(path)
    &&& dir.len() > 0
    &&& path.len() > dir.len()
    &&& path.take(dir.len() as int) == dir
    &&& is_ascii_alnum(dir.last())
    &&& is_ascii_alnum(path[dir.len() as int])
}

/// `Path::new(path).starts_with(base)`. Its documentation says it "only
/// considers whole path components to match"; the contract claims the two
/// consequences that scene detection relies on: a path below `base`
/// (`base`, a `/`, more) starts with it, and a path that only extends the
/// last name of `base` (`/tmpfoo` of `/tmp`) does not. Paths with a
/// backslash are left out, since it separates components only on Windows.
#[verifier::external_body]
fn path_starts_with(path: &str, base: &str) -> (r: bool)
    ensures
        r == path_has_prefix(path@, base@),
        below_dir(path@, base@) ==> r,
        name_extends(path@, base@) ==> !r,
{
    Path::new(path).starts_with(Path::new(base))
}

/// `Path::new(path).file_name()`, as a string.
#[verifier::external_body]
fn path_file_name(path: &str) -> (r: Option<String>)
    ensures
        match r {
            Some(n) => path_last_name(path@) == Some(n@),
            None => path_last_name(path@) is None,
        },
{
    Path::new(path).file_name().and_then(|n| n.to_str()).map(|n| n.to_owned())
}

/// A registered scene: its id, its name and the directories it covers.
#[derive(Debug)]
pub struct SceneEntry {
    pub id: u64,
    pub name: String,
    pub paths: Vec<String>,
}

/// A scene as (id, name, directories).
pub open spec fn scene_view(s: SceneEntry) -> (u64, Seq<char>, Seq<Seq<char>>) {
    (s.id, s.name@, s.paths@.map_values(|p: String| p@))
}

/// What the memory has to do when the current scene changes: unload the
/// full memory of the scene left, and load that of the scene entered.
#[derive(Debug, Clone, Copy, PartialEq, Eq, Structural)]
pub struct SceneSwitch {
    pub id: u64,
    pub unload: Option<u64>,
    pub load: Option<u64>,
}

/// The switch to scene `id` from the current scene `prev`: nothing to load
/// or unload when `id` is already current.
pub open spec fn switch_from(prev: Option<u64>, id: u64) -> SceneSwitch {
    if prev == Some(id) {
        SceneSwitch { id, unload: None, load: None }
    } else {
        SceneSwitch { id, unload: prev, load: Some(id) }
    }
}

/// Whether some directory of a scene has `cwd` below it.
pub open spec fn some_dir_above(es: Seq<(u64, Seq<char>, Seq<Seq<char>>)>, cwd: Seq<char>) -> bool {
    exists|k: int, j: int| 0 <= k < es.len() && 0 <= j < es[k].2.len() && #[trigger] below_dir(cwd, es[k].2[j])
}

/// Whether `cwd` only extends the last name of every directory of every
/// scene.
pub open spec fn only_name_extensions(es: Seq<(u64, Seq<char>, Seq<Seq<char>>)>, cwd: Seq<char>) -> bool {
    forall|k: int, j: int| 0 <= k < es.len() && 0 <= j < es[k].2.len() ==> #[trigger] name_extends(cwd, es[k].2[j])
}

/// Whether a scene covers the directory `cwd`.
pub open spec fn covers(s: (u64, Seq<char>, Seq<Seq<char>>), cwd: Seq<char>) -> bool {
    exists|k: int| 0 <= k < s.2.len() && path_has_prefix(cwd, #[trigger] s.2[k])
}

/// The scenes known to the runtime and the current one.
pub struct SceneManager {
    /// Kept in registration order, ids unique (`wf`), rather than in a map
    /// by id: detection takes the last registered covering scene and the
    /// listing shows scenes in order, which a map's walk would leave open.
    scenes: Vec<SceneEntry>,
    current: Option<u64>,
    last_switch: Instant,
    debounce: Duration,
    next_id: u64,
    default_scene: String,
}

impl SceneManager {
    /// The registered scenes as (id, name, directories), in registration order.
    pub closed spec fn entries(self) -> Seq<(u64, Seq<char>, Seq<Seq<char>>)> {
        self.scenes@.map_values(|s: SceneEntry| scene_view(s))
    }

    /// The id of the current scene.
    pub closed spec fn current_id(self) -> Option<u64> {
        self.current
    }

    /// The id the next registration receives.
    pub closed spec fn next_scene_id(self) -> u64 {
        self.next_id
    }

    /// The name given to the default scene.
    pub closed spec fn default_name(self) -> Seq<char> {
        self.default_scene@
    }

    /// The moment of the last detection.
    pub closed spec fn last_detection(self) -> Instant {
        self.last_switch
    }

    /// The least time between two detections.
    pub closed spec fn debounce_interval(self) -> Duration {
        self.debounce
    }

    /// The scene registered under `id`.
    pub open spec fn scene(self, id: u64) -> Option<(u64, Seq<char>, Seq<Seq<char>>)> {
        if exists|k: int| 0 <= k < self.entries().len() && self.entries()[k].0 == id {
            Some(self.entries()[choose|k: int| 0 <= k < self.entries().len() && self.entries()[k].0 == id])
        } else {
            None
        }
    }

    /// No two scenes share an id.
    pub open spec fn wf(self) -> bool {
        forall|j: int, k: int|
            0 <= j < k < self.entries().len() ==> self.entries()[j].0 != self.entries()[k].0
    }

    /// No scene, none current; ids start at 1.
    pub fn new(debounce_ms: u64, default_scene: String) -> (r: Self)
        ensures
            r.wf(),
            r.entries().len() == 0,
            r.current_id() is None,
            r.next_scene_id() == 1,
            r.default_name() == default_scene@,
            r.debounce_interval() == duration_millis(debounce_ms),
    {
        SceneManager {
            scenes: Vec::new(),
            current: None,
            last_switch: now(),
            debounce: millis(debounce_ms),
            next_id: 1,
            default_scene,
        }
    }

    fn position(&self, id: u64) -> (r: Option<usize>)
        requires
            self.wf(),
        ensures
            match r {
                Some(k) => k < self.entries().len() && self.entries()[k as int].0 == id
                    && self.scene(id) == Some(self.entries()[k as int]),
                None => self.scene(id) is None,
            },
    {
        let mut i: usize = 0;
        while i < self.scenes.len()
            invariant
                i <= self.scenes@.len(),
                self.wf(),
                forall|k: int| 0 <= k < i ==> self.scenes@[k].id != id,
            decreases self.scenes@.len() - i,
        {
            if self.scenes[i].id == id {
                proof {
                    let k = choose|k: int| 0 <= k < self.entries().len() && self.entries()[k].0 == id;
                    assert(self.entries()[i as int].0 == id);
                    if k != i {
                        assert(self.entries()[k].0 != self.entries()[i as int].0);
                    }
                }
                return Some(i);
            }
            i = i + 1;
        }
        proof {
            assert forall|k: int| 0 <= k < self.entries().len() implies self.entries()[k].0 != id by {
                assert(self.entries()[k].0 == self.scenes@[k].id);
            }
        }
        None
    }

    /// Registers a scene under the next id (ids wrap around after the
    /// largest one) and returns that id. A scene already registered under
    /// the same id is replaced.
    pub fn register(&mut self, name: String, paths: Vec<String>) -> (id: u64)
        requires
            old(self).wf(),
        ensures
            final(self).wf(),
            id == old(self).next_scene_id(),
            final(self).next_scene_id() == (if id == u64::MAX { 0 } else { id + 1 }),
            final(self).scene(id) == Some((id, name@, paths@.map_values(|p: String| p@))),
            forall|other: u64| other != id ==> final(self).scene(other) == old(self).scene(other),
            final(self).current_id() == old(self).current_id(),
            final(self).default_name() == old(self).default_name(),
    {
        let id = self.next_id;
        let pos = self.position(id);
        let ghost old_entries = self.entries();
        assert(forall|j: int, l: int| 0 <= j < l < old_entries.len() ==> old_entries[j].0 != old_entries[l].0);
        self.next_id = self.next_id.wrapping_add(1);
        assert(self.entries() == old_entries);
        let entry = SceneEntry { id, name, paths };
        let ghost ev = scene_view(entry);
        match pos {
            Some(k) => {
                self.scenes.set(k, entry);
                proof {
                    assert(self.entries() =~= old_entries.update(k as int, ev));
                    self.lemma_scene_after_update(old_entries, k as int, ev);
                }
            },
            None => {
                self.scenes.push(entry);
                proof {
                    assert(self.entries() =~= old_entries.push(ev));
                    self.lemma_scene_after_push(old_entries, ev);
                }
            },
        }
        id
    }

    proof fn lemma_scene_after_update(self, before: Seq<(u64, Seq<char>, Seq<Seq<char>>)>, k: int, ev: (u64, Seq<char>, Seq<Seq<char>>))
        requires
            0 <= k < before.len(),
            before[k].0 == ev.0,
            self.entries() == before.update(k, ev),
            forall|j: int, l: int| 0 <= j < l < before.len() ==> before[j].0 != before[l].0,
        ensures
            self.wf(),
            self.scene(ev.0) == Some(ev),
            forall|other: u64| other != ev.0 ==> self.scene(other) == (if exists|j: int| 0 <= j < before.len() && before[j].0 == other {
                Some(before[choose|j: int| 0 <= j < before.len() && before[j].0 == other])
            } else {
                None
            }),
    {
        let e = self.entries();
        assert forall|j: int, l: int| 0 <= j < l < e.len() implies e[j].0 != e[l].0 by {
            assert(e[j].0 == before[j].0 && e[l].0 == before[l].0);
        }
        let c = choose|j: int| 0 <= j < e.len() && e[j].0 == ev.0;
        assert(e[k].0 == ev.0);
        if c != k {
            assert(e[c].0 != e[k].0);
        }
        assert forall|other: u64| other != ev.0 implies self.scene(other) == (if exists|j: int| 0 <= j < before.len() && before[j].0 == other {
            Some(before[choose|j: int| 0 <= j < before.len() && before[j].0 == other])
        } else {
            None
        }) by {
            if exists|j: int| 0 <= j < before.len() && before[j].0 == other {
                let b = choose|j: int| 0 <= j < before.len() && before[j].0 == other;
                assert(b != k);
                assert(e[b] == before[b]);
                let c2 = choose|j: int| 0 <= j < e.len() && e[j].0 == other;
                if c2 != b {
                    assert(e[c2].0 != e[b].0);
                }
            } else {
                assert forall|j: int| 0 <= j < e.len() implies e[j].0 != other by {
                    if j != k {
                        assert(e[j] == before[j]);
                    }
                }
            }
        }
    }

    proof fn lemma_scene_after_push(self, before: Seq<(u64, Seq<char>, Seq<Seq<char>>)>, ev: (u64, Seq<char>, Seq<Seq<char>>))
        requires
            forall|j: int| 0 <= j < before.len() ==> before[j].0 != ev.0,
            self.entries() == before.push(ev),
            forall|j: int, l: int| 0 <= j < l < before.len() ==> before[j].0 != before[l].0,
        ensures
            self.wf(),
            self.scene(ev.0) == Some(ev),
            forall|other: u64| other != ev.0 ==> self.scene(other) == (if exists|j: int| 0 <= j < before.len() && before[j].0 == other {
                Some(before[choose|j: int| 0 <= j < before.len() && before[j].0 == other])
            } else {
                None
            }),
    {
        let e = self.entries();
        let n = before.len() as int;
        assert forall|j: int, l: int| 0 <= j < l < e.len() implies e[j].0 != e[l].0 by {
            if l < n {
                assert(e[j] == before[j] && e[l] == before[l]);
            } else {
                assert(e[j] == before[j]);
            }
        }
        let c = choose|j: int| 0 <= j < e.len() && e[j].0 == ev.0;
        assert(e[n].0 == ev.0);
        if c != n {
            assert(e[c].0 != e[n].0);
        }
        assert forall|other: u64| other != ev.0 implies self.scene(other) == (if exists|j: int| 0 <= j < before.len() && before[j].0 == other {
            Some(before[choose|j: int| 0 <= j < before.len() && before[j].0 == other])
        } else {
            None
        }) by {
            if exists|j: int| 0 <= j < before.len() && before[j].0 == other {
                let b = choose|j: int| 0 <= j < before.len() && before[j].0 == other;
                assert(e[b] == before[b]);
                let c2 = choose|j: int| 0 <= j < e.len() && e[j].0 == other;
                if c2 != b {
                    assert(e[c2].0 != e[b].0);
                }
            } else {
                assert forall|j: int| 0 <= j < e.len() implies e[j].0 != other by {
                    if j < n {
                        assert(e[j] == before[j]);
                    }
                }
            }
        }
    }
}

/// The last scene, in registration order, that covers `cwd`.
pub open spec fn last_covering(es: Seq<(u64, Seq<char>, Seq<Seq<char>>)>, cwd: Seq<char>) -> Option<int>
    decreases es.len(),
{
    if es.len() == 0 {
        None
    } else if covers(es.last(), cwd) {
        Some(es.len() - 1)
    } else {
        last_covering(es.drop_last(), cwd)
    }
}

/// The first scene, in registration order, called `name`.
pub open spec fn first_named(es: Seq<(u64, Seq<char>, Seq<Seq<char>>)>, name: Seq<char>) -> Option<int> {
    if exists|k: int| 0 <= k < es.len() && es[k].1 == name {
        Some(choose|k: int| 0 <= k < es.len() && es[k].1 == name && forall|j: int| 0 <= j < k ==> es[j].1 != name)
    } else {
        None
    }
}

/// The name a directory's scene is registered under: its last component,
/// or `unknown`.
pub open spec fn scene_name_for(cwd: Seq<char>) -> Seq<char> {
    match path_last_name(cwd) {
        Some(n) => n,
        None => "unknown"@,
    }
}

impl SceneManager {
    fn switch_to(&mut self, id: u64) -> (r: SceneSwitch)
        ensures
            r == switch_from(old(self).current_id(), id),
            final(self).current_id() == Some(id),
            final(self).entries() == old(self).entries(),
            final(self).next_scene_id() == old(self).next_scene_id(),
            final(self).default_name() == old(self).default_name(),
    {
        let prev = self.current;
        self.current = Some(id);
        if prev == Some(id) {
            SceneSwitch { id, unload: None, load: None }
        } else {
            SceneSwitch { id, unload: prev, load: Some(id) }
        }
    }

    /// Makes the first scene called `name` current, returning what the
    /// memory has to do; `None`, and nothing changes, when no scene has
    /// that name.
    pub fn switch_by_name(&mut self, name: &str) -> (r: Option<SceneSwitch>)
        requires
            old(self).wf(),
        ensures
            final(self).wf(),
            final(self).entries() == old(self).entries(),
            final(self).next_scene_id() == old(self).next_scene_id(),
            match first_named(old(self).entries(), name@) {
                Some(k) => r == Some(switch_from(old(self).current_id(), old(self).entries()[k].0))
                    && final(self).current_id() == Some(old(self).entries()[k].0),
                None => r is None && final(self).current_id() == old(self).current_id(),
            },
    {
        let ghost es = self.entries();
        let mut i: usize = 0;
        while i < self.scenes.len()
            invariant
                i <= self.scenes@.len(),
                es == self.entries(),
                *self == *old(self),
                old(self).wf(),
                forall|j: int| 0 <= j < i ==> es[j].1 != name@,
            decreases self.scenes@.len() - i,
        {
            assert(es[i as int] == scene_view(self.scenes@[i as int]));
            if str_eq(self.scenes[i].name.as_str(), name) {
                let id = self.scenes[i].id;
                proof {
                    let k = choose|k: int| 0 <= k < es.len() && es[k].1 == name@ && forall|j: int| 0 <= j < k ==> es[j].1 != name@;
                    assert(es[i as int].1 == name@);
                    if k < i {
                        assert(es[k].1 != name@);
                    }
                    if k > i {
                        assert(es[i as int].1 != name@);
                    }
                }
                let sw = self.switch_to(id);
                return Some(sw);
            }
            i = i + 1;
        }
        proof {
            assert forall|k: int| 0 <= k < es.len() implies es[k].1 != name@ by {}
        }
        None
    }

    /// Starts a detection unless the last one was less than the debounce
    /// interval ago; returns whether to go on. What the clock says is not
    /// modelled: either answer may come. Nothing but the time of the last
    /// detection changes, and that only when the detection goes on.
    pub fn begin_detect(&mut self) -> (go: bool)
        ensures
            final(self).entries() == old(self).entries(),
            final(self).current_id() == old(self).current_id(),
            final(self).next_scene_id() == old(self).next_scene_id(),
            final(self).default_name() == old(self).default_name(),
            final(self).debounce_interval() == old(self).debounce_interval(),
            !go ==> final(self).last_detection() == old(self).last_detection(),
    {
        if elapsed_below(&self.last_switch, &self.debounce) {
            return false;
        }
        self.last_switch = now();
        true
    }

    fn last_covering_index(&self, cwd: &str) -> (r: Option<usize>)
        ensures
            match r {
                Some(k) => k < self.entries().len() && last_covering(self.entries(), cwd@) == Some(k as int),
                None => last_covering(self.entries(), cwd@) is None,
            },
            some_dir_above(self.entries(), cwd@) ==> r is Some,
            only_name_extensions(self.entries(), cwd@) ==> r is None,
    {
        let ghost es = self.entries();
        let mut i: usize = self.scenes.len();
        assert(es.take(i as int) =~= es);
        while i > 0
            invariant
                i <= self.scenes@.len(),
                es == self.entries(),
                last_covering(es.take(i as int), cwd@) == last_covering(es, cwd@),
                forall|q: int, j: int|
                    i <= q < es.len() && 0 <= j < es[q].2.len() ==> !#[trigger] below_dir(cwd@, es[q].2[j]),
            decreases i,
        {
            let ghost pre = es.take(i as int);
            assert(pre.last() == es[i - 1]);
            assert(pre.drop_last() =~= es.take(i - 1));
            assert(es[i - 1] == scene_view(self.scenes@[i - 1]));
            let paths = &self.scenes[i - 1].paths;
            let mut k: usize = 0;
            while k < paths.len()
                invariant
                    0 < i <= self.scenes@.len(),
                    es == self.entries(),
                    last_covering(es.take(i as int), cwd@) == last_covering(es, cwd@),
                    k <= paths@.len(),
                    es[i - 1].2 == paths@.map_values(|p: String| p@),
                    forall|j: int| 0 <= j < k ==> !path_has_prefix(cwd@, #[trigger] es[i - 1].2[j]),
                    forall|j: int| 0 <= j < k ==> !#[trigger] below_dir(cwd@, es[i - 1].2[j]),
                    forall|q: int, j: int|
                        i <= q < es.len() && 0 <= j < es[q].2.len() ==> !#[trigger] below_dir(cwd@, es[q].2[j]),
                decreases paths@.len() - k,
            {
                if path_starts_with(cwd, paths[k].as_str()) {
                    assert(es[i - 1].2[k as int] == paths@[k as int]@);
                    assert(!only_name_extensions(es, cwd@)) by {
                        if only_name_extensions(es, cwd@) {
                            assert(name_extends(cwd@, es[i - 1].2[k as int]));
                        }
                    }
                    assert(covers(es[i - 1], cwd@));
                    assert(es.take(i as int).last() == es[i - 1]);
                    return Some(i - 1);
                }
                assert(es[i - 1].2[k as int] == paths@[k as int]@);
                k = k + 1;
            }
            assert(!covers(es[i - 1], cwd@));
            i = i - 1;
        }
        assert(!some_dir_above(es, cwd@));
        None
    }

    /// Finishes a detection in the directory `cwd`: the last registered
    /// scene that covers it becomes current; when none does and the
    /// directory carries a project marker (`.bugs`, `BUG.md`, `.git`), a
    /// scene named after the directory is registered for it and becomes
    /// current. Returns what the memory has to do, if anything.
    pub fn finish_detect(&mut self, cwd: &str, has_marker: bool) -> (r: Option<SceneSwitch>)
        requires
            old(self).wf(),
        ensures
            final(self).wf(),
            final(self).default_name() == old(self).default_name(),
            some_dir_above(old(self).entries(), cwd@) ==> last_covering(old(self).entries(), cwd@) is Some,
            only_name_extensions(old(self).entries(), cwd@) ==> last_covering(old(self).entries(), cwd@) is None,
            match last_covering(old(self).entries(), cwd@) {
                Some(k) => {
                    &&& r == Some(switch_from(old(self).current_id(), old(self).entries()[k].0))
                    &&& final(self).current_id() == Some(old(self).entries()[k].0)
                    &&& final(self).entries() == old(self).entries()
                    &&& final(self).next_scene_id() == old(self).next_scene_id()
                },
                None => if has_marker {
                    let id = old(self).next_scene_id();
                    &&& r == Some(switch_from(old(self).current_id(), id))
                    &&& final(self).current_id() == Some(id)
                    &&& final(self).scene(id) == Some((id, scene_name_for(cwd@), seq![cwd@]))
                    &&& forall|other: u64| other != id ==> final(self).scene(other) == old(self).scene(other)
                    &&& final(self).next_scene_id() == (if id == u64::MAX { 0 } else { id + 1 })
                } else {
                    &&& r is None
                    &&& final(self).current_id() == old(self).current_id()
                    &&& final(self).entries() == old(self).entries()
                    &&& final(self).next_scene_id() == old(self).next_scene_id()
                },
            },
    {
        match self.last_covering_index(cwd) {
            Some(k) => {
                let id = self.scenes[k].id;
                Some(self.switch_to(id))
            },
            None => {
                if has_marker {
                    let name = match path_file_name(cwd) {
                        Some(n) => n,
                        None => "unknown".to_owned(),
                    };
                    let mut paths: Vec<String> = Vec::new();
                    paths.push(cwd.to_owned());
                    assert(paths@.map_values(|p: String| p@) =~= seq![cwd@]);
                    let id = self.register(name, paths);
                    let ghost mid = *self;
                    let sw = self.switch_to(id);
                    assert(self.entries() == mid.entries());
                    Some(sw)
                } else {
                    None
                }
            },
        }
    }

    /// The id of the current scene.
    pub fn current(&self) -> (r: Option<u64>)
        ensures
            r == self.current_id(),
    {
        self.current
    }

    /// The name of the current scene.
    pub fn current_name(&self) -> (r: Option<String>)
        requires
            self.wf(),
        ensures
            match r {
                Some(n) => self.current_id() is Some && self.scene(self.current_id().unwrap()) is Some
                    && self.scene(self.current_id().unwrap()).unwrap().1 == n@,
                None => self.current_id() is None || self.scene(self.current_id().unwrap()) is None,
            },
    {
        match self.current {
            Some(id) => match self.position(id) {
                Some(k) => Some(self.scenes[k].name.clone()),
                None => None,
            },
            None => None,
        }
    }

    /// The registered scenes, in registration order.
    pub fn list(&self) -> (r: Vec<&SceneEntry>)
        ensures
            r@.len() == self.entries().len(),
            forall|k: int| 0 <= k < r@.len() ==> scene_view(*r@[k]) == self.entries()[k],
    {
        let mut r: Vec<&SceneEntry> = Vec::new();
        let mut i: usize = 0;
        while i < self.scenes.len()
            invariant
                i <= self.scenes@.len(),
                r@.len() == i,
                forall|k: int| 0 <= k < i ==> *r@[k] == self.scenes@[k],
            decreases self.scenes@.len() - i,
        {
            r.push(&self.scenes[i]);
            i = i + 1;
        }
        r
    }

    /// Registers the default scene, covering the working directory (`.`).
    pub fn create_default(&mut self) -> (id: u64)
        requires
            old(self).wf(),
        ensures
            final(self).wf(),
            id == old(self).next_scene_id(),
            final(self).scene(id) == Some((id, old(self).default_name(), seq!["."@])),
            forall|other: u64| other != id ==> final(self).scene(other) == old(self).scene(other),
            final(self).current_id() == old(self).current_id(),
    {
        let name = self.default_scene.clone();
        let mut paths: Vec<String> = Vec::new();
        paths.push(".".to_owned());
        assert(paths@.map_values(|p: String| p@) =~= seq!["."@]);
        self.register(name, paths)
    }
}

/// Switching by name lands on a scene of that name: the scene chosen is
/// called `name`, and no earlier scene is.
pub proof fn lemma_switch_lands_on_name(es: Seq<(u64, Seq<char>, Seq<Seq<char>>)>, name: Seq<char>)
    ensures
        first_named(es, name) matches Some(k) ==> 0 <= k < es.len() && es[k].1 == name
            && forall|j: int| 0 <= j < k ==> es[j].1 != name,
        first_named(es, name) is None ==> forall|j: int| 0 <= j < es.len() ==> es[j].1 != name,
{
    if exists|k: int| 0 <= k < es.len() && es[k].1 == name {
        let w = choose|k: int| 0 <= k < es.len() && es[k].1 == name;
        lemma_first_name_exists(es, name, w);
    }
}

proof fn lemma_first_name_exists(es: Seq<(u64, Seq<char>, Seq<Seq<char>>)>, name: Seq<char>, w: int)
    requires
        0 <= w < es.len(),
        es[w].1 == name,
    ensures
        exists|k: int| 0 <= k < es.len() && es[k].1 == name && forall|j: int| 0 <= j < k ==> es[j].1 != name,
    decreases w,
{
    if exists|j: int| 0 <= j < w && es[j].1 == name {
        let j = choose|j: int| 0 <= j < w && es[j].1 == name;
        lemma_first_name_exists(es, name, j);
    } else {
        assert(es[w].1 == name && forall|j: int| 0 <= j < w ==> es[j].1 != name);
    }
}

} // verus!
