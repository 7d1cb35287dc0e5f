//! Skills: markdown files (SKILL.md, compatible with OpenClaw) whose
//! instructions are injected into an agent's context. A skill may open with
//! a `---`-delimited front matter that carries its description.
use vstd::prelude::*;
use crate::text::{
    chars_of, find_char, find_from, first_occurrence, has_prefix, index_of_char, lemma_index_of_char_bounds, lines,
    next_line, occurs_at, slice_chars, starts_with_chars, str_eq, string_of, trim, trim_chars,
};

verus! {

/// A skill: its name, description and instructions.
#[derive(Debug, Clone)]
pub struct Skill {
    pub name: String,
    pub description: String,
    /// The markdown instructions injected into an agent's context.
    pub instructions: String,
    /// Tools the skill needs.
    pub requires: Vec<String>,
    /// Operating systems the skill applies to.
    pub os: Option<Vec<String>>,
}

/// The front matter and the body of a skill file. A file that starts with
/// `---` and has a later `---` splits there: the front matter lies between
/// the two markers and the body follows the second. Any other file has no
/// front matter and is all body.
pub open spec fn split_front_matter(c: Seq<char>) -> (Seq<char>, Seq<char>) {
    if has_prefix(c, "---"@) {
        let rest = c.skip(3);
        match first_occurrence(rest, "---"@) {
            Some(e) => (rest.take(e), rest.skip(e + 3)),
            None => (Seq::empty(), c),
        }
    } else {
        (Seq::empty(), c)
    }
}

/// The first line in `ls` that starts with `p`.
pub open spec fn first_line_with_prefix(ls: Seq<Seq<char>>, p: Seq<char>) -> Option<Seq<char>>
    decreases ls.len(),
{
    if ls.len() == 0 {
        None
    } else if has_prefix(ls[0], p) {
        Some(ls[0])
    } else {
        first_line_with_prefix(ls.drop_first(), p)
    }
}

/// The second `:`-separated field of a line (`split(':').nth(1)`), if the
/// line holds a `:`.
pub open spec fn second_field(l: Seq<char>) -> Option<Seq<char>> {
    let i = index_of_char(l, ':');
    if i < l.len() {
        let after = l.skip(i + 1);
        Some(after.take(index_of_char(after, ':')))
    } else {
        None
    }
}

/// `s` without leading and trailing `"` characters.
pub open spec fn strip_quotes(s: Seq<char>) -> Seq<char> {
    strip_quotes_end(strip_quotes_start(s))
}

/// `s` without its leading double quotes.
pub open spec fn strip_quotes_start(s: Seq<char>) -> Seq<char>
    decreases s.len(),
{
    if s.len() > 0 && s[0] == '"' {
        strip_quotes_start(s.drop_first())
    } else {
        s
    }
}

/// `s` without its trailing double quotes.
pub open spec fn strip_quotes_end(s: Seq<char>) -> Seq<char>
    decreases s.len(),
{
    if s.len() > 0 && s.last() == '"' {
        strip_quotes_end(s.drop_last())
    } else {
        s
    }
}

/// The description a front matter declares: the value after
/// `description:` on its first such line, trimmed and unquoted; empty when
/// there is none.
pub open spec fn front_matter_description(fm: Seq<char>) -> Seq<char> {
    match first_line_with_prefix(lines(fm), "description:"@) {
        Some(l) => match second_field(l) {
            Some(f) => strip_quotes(trim(f)),
            None => Seq::empty(),
        },
        None => Seq::empty(),
    }
}

fn strip_quote_chars(s: &Vec<char>) -> (r: Vec<char>)
    ensures
        r@ == strip_quotes(s@),
{
    let mut lo: usize = 0;
    let n = s.len();
    assert(s@.skip(0) =~= s@);
    while lo < n && s[lo] == '"'
        invariant
            lo <= n,
            n == s.len(),
            strip_quotes_start(s@) == strip_quotes_start(s@.skip(lo as int)),
        decreases n - lo,
    {
        assert(s@.skip(lo as int).drop_first() =~= s@.skip(lo + 1));
        lo = lo + 1;
    }
    let t = slice_chars(s, lo, n);
    assert(t@ =~= s@.skip(lo as int));
    let mut hi: usize = t.len();
    assert(t@.take(hi as int) =~= t@);
    while hi > 0 && t[hi - 1] == '"'
        invariant
            hi <= t.len(),
            strip_quotes_end(t@) == strip_quotes_end(t@.take(hi as int)),
        decreases hi,
    {
        assert(t@.take(hi as int).drop_last() =~= t@.take(hi - 1));
        hi = hi - 1;
    }
    slice_chars(&t, 0, hi)
}

/// The description declared in a front matter.
fn description_of(fm: &Vec<char>) -> (r: Vec<char>)
    ensures
        r@ == front_matter_description(fm@),
{
    let key = chars_of("description:");
    let n = fm.len();
    let mut pos: usize = 0;
    assert(fm@.skip(0) =~= fm@);
    while pos < n
        invariant
            pos <= n,
            n == fm.len(),
            key@ == "description:"@,
            first_line_with_prefix(lines(fm@), "description:"@) == first_line_with_prefix(
                lines(fm@.skip(pos as int)),
                "description:"@,
            ),
        decreases n - pos,
    {
        let (end, nl) = next_line(fm, pos);
        let line = slice_chars(fm, pos, end);
        let ghost ls = lines(fm@.skip(pos as int));
        if starts_with_chars(&line, &key) {
            // the field between the first and the second `:`
            let c1 = find_char(&line, ':', 0);
            proof {
                assert(line@.skip(0) =~= line@);
                lemma_index_of_char_bounds(line@, ':');
            }
            if c1 < line.len() {
                let c2 = find_char(&line, ':', c1 + 1);
                let field = slice_chars(&line, c1 + 1, c2);
                proof {
                    let after = line@.skip(c1 + 1);
                    assert(field@ =~= after.take(index_of_char(after, ':')));
                }
                let trimmed = trim_chars(&field);
                return strip_quote_chars(&trimmed);
            } else {
                return Vec::new();
            }
        }
        proof {
            assert(!has_prefix(ls[0], "description:"@));
            assert(first_line_with_prefix(ls, "description:"@) == first_line_with_prefix(
                ls.drop_first(),
                "description:"@,
            ));
        }
        if nl == n {
            proof {
                assert(ls.drop_first() =~= Seq::<Seq<char>>::empty());
                assert(first_line_with_prefix(ls.drop_first(), "description:"@) is None);
            }
            return Vec::new();
        }
        pos = nl + 1;
    }
    proof {
        assert(fm@.skip(n as int) =~= Seq::<char>::empty());
    }
    Vec::new()
}

impl Skill {
    /// The skill called `name` whose file reads `content`: its description
    /// comes from the front matter, its instructions are the body; it lists
    /// no required tools and no operating systems.
    pub fn parse(name: String, content: String) -> (s: Skill)
        ensures
            s.name == name,
            s.description@ == front_matter_description(split_front_matter(content@).0),
            s.instructions@ == split_front_matter(content@).1,
            s.requires@.len() == 0,
            s.os is None,
    {
        let c = chars_of(content.as_str());
        let dash = chars_of("---");
        proof {
            reveal_strlit("---");
        }
        let (fm, body): (Vec<char>, Vec<char>) = if starts_with_chars(&c, &dash) {
            let rest = slice_chars(&c, 3, c.len());
            match find_from(&rest, &dash, 0) {
                Some(e) => {
                    proof {
                        assert(rest@ =~= c@.skip(3));
                        let f = choose|i: int|
                            occurs_at(rest@, dash@, i) && forall|j: int|
                                0 <= j < i ==> !occurs_at(rest@, dash@, j);
                        if f < e {
                            assert(!occurs_at(rest@, dash@, f));
                        }
                        if f > e {
                            assert(false);
                        }
                    }
                    (slice_chars(&rest, 0, e), slice_chars(&rest, e + 3, rest.len()))
                },
                None => {
                    proof {
                        assert(rest@ =~= c@.skip(3));
                        assert(forall|i: int| !occurs_at(rest@, dash@, i));
                    }
                    (Vec::new(), c)
                },
            }
        } else {
            (Vec::new(), c)
        };
        let description = description_of(&fm);
        Skill {
            name,
            description: string_of(&description),
            instructions: string_of(&body),
            requires: Vec::new(),
            os: None,
        }
    }
}

/// Skills keyed by name.
pub struct SkillRegistry {
    skills: Vec<Skill>,
}

impl SkillRegistry {
    /// The registered skills, in registration order.
    pub closed spec fn skills(self) -> Seq<Skill> {
        self.skills@
    }

    /// No two skills share a name.
    pub open spec fn wf(self) -> bool {
        forall|j: int, k: int|
            0 <= j < k < self.skills().len() ==> self.skills()[j].name@ != self.skills()[k].name@
    }

    /// The skill called `name`, if any.
    pub open spec fn skill(self, name: Seq<char>) -> Option<Skill> {
        if exists|k: int| 0 <= k < self.skills().len() && self.skills()[k].name@ == name {
            Some(self.skills()[choose|k: int| 0 <= k < self.skills().len() && self.skills()[k].name@ == name])
        } else {
            None
        }
    }

    /// An empty registry.
    pub fn new() -> (r: Self)
        ensures
            r.wf(),
            r.skills().len() == 0,
    {
        SkillRegistry { skills: Vec::new() }
    }

    /// Adds a skill under its name, replacing a skill of the same name.
    pub fn insert(&mut self, skill: Skill)
        requires
            old(self).wf(),
        ensures
            final(self).wf(),
            final(self).skill(skill.name@) == Some(skill),
            forall|other: Seq<char>| other != skill.name@ ==> final(self).skill(other) == old(self).skill(other),
    {
        let ghost olds = self.skills@;
        let ghost sk = skill;
        let mut i: usize = 0;
        while i < self.skills.len()
            invariant
                i <= self.skills@.len(),
                self.skills@ == olds,
                old(self).skills@ == olds,
                old(self).wf(),
                sk == skill,
                forall|k: int| 0 <= k < i ==> olds[k].name@ != skill.name@,
            decreases self.skills@.len() - i,
        {
            if str_eq(self.skills[i].name.as_str(), skill.name.as_str()) {
                self.skills.set(i, skill);
                proof {
                    assert(self.skills()[i as int].name@ == sk.name@);
                    assert(self.skills@ == olds.update(i as int, sk));
                    assert forall|j: int, k: int| 0 <= j < k < self.skills@.len() implies self.skills@[j].name@
                        != self.skills@[k].name@ by {
                        assert(olds[j].name@ != olds[k].name@);
                    }
                    let c = choose|k: int|
                        0 <= k < self.skills().len() && self.skills()[k].name@ == sk.name@;
                    assert(c == i as int);
                    assert forall|other: Seq<char>| other != sk.name@ implies self.skill(other) == old(self).skill(other) by {
                        if exists|q: int| 0 <= q < olds.len() && olds[q].name@ == other {
                            let q1 = choose|q: int| 0 <= q < olds.len() && olds[q].name@ == other;
                            assert(self.skills()[q1].name@ == other);
                            let q2 = choose|q: int| 0 <= q < self.skills().len() && self.skills()[q].name@ == other;
                            assert(q1 == q2);
                        } else {
                            if exists|q: int| 0 <= q < self.skills().len() && self.skills()[q].name@ == other {
                                let q2 = choose|q: int| 0 <= q < self.skills().len() && self.skills()[q].name@ == other;
                                assert(olds[q2].name@ == other);
                            }
                        }
                    }
                }
                return;
            }
            i = i + 1;
        }
        self.skills.push(skill);
        proof {
            assert(self.skills@ == olds.push(sk));
            assert(self.skills()[olds.len() as int].name@ == sk.name@);
            assert forall|j: int, k: int| 0 <= j < k < self.skills@.len() implies self.skills@[j].name@
                != self.skills@[k].name@ by {
                if k < olds.len() {
                    assert(olds[j].name@ != olds[k].name@);
                }
            }
            let c = choose|k: int| 0 <= k < self.skills().len() && self.skills()[k].name@ == sk.name@;
            assert(c == olds.len());
            assert forall|other: Seq<char>| other != sk.name@ implies self.skill(other) == old(self).skill(other) by {
                if exists|q: int| 0 <= q < olds.len() && olds[q].name@ == other {
                    let q1 = choose|q: int| 0 <= q < olds.len() && olds[q].name@ == other;
                    assert(self.skills()[q1].name@ == other);
                    let q2 = choose|q: int| 0 <= q < self.skills().len() && self.skills()[q].name@ == other;
                    assert(q1 == q2);
                } else {
                    if exists|q: int| 0 <= q < self.skills().len() && self.skills()[q].name@ == other {
                        let q2 = choose|q: int| 0 <= q < self.skills().len() && self.skills()[q].name@ == other;
                        assert(olds[q2].name@ == other);
                    }
                }
            }
        }
    }

    /// The skill called `name`.
    pub fn get(&self, name: &str) -> (r: Option<&Skill>)
        requires
            self.wf(),
        ensures
            match r {
                Some(s) => self.skill(name@) == Some(*s),
                None => self.skill(name@) is None,
            },
    {
        let mut i: usize = 0;
        while i < self.skills.len()
            invariant
                i <= self.skills@.len(),
                self.wf(),
                forall|k: int| 0 <= k < i ==> self.skills@[k].name@ != name@,
            decreases self.skills@.len() - i,
        {
            if str_eq(self.skills[i].name.as_str(), name) {
                proof {
                    let c = choose|k: int| 0 <= k < self.skills().len() && self.skills()[k].name@ == name@;
                    assert(c == i as int);
                }
                return Some(&self.skills[i]);
            }
            i = i + 1;
        }
        None
    }

    /// All registered skills, in registration order.
    pub fn list(&self) -> (r: Vec<&Skill>)
        ensures
            r@.len() == self.skills().len(),
            forall|k: int| 0 <= k < r@.len() ==> *r@[k] == self.skills()[k],
    {
        let mut r: Vec<&Skill> = Vec::new();
        let mut i: usize = 0;
        while i < self.skills.len()
            invariant
                i <= self.skills@.len(),
                r@.len() == i,
                forall|k: int| 0 <= k < i ==> *r@[k] == self.skills@[k],
            decreases self.skills@.len() - i,
        {
            r.push(&self.skills[i]);
            i = i + 1;
        }
        r
    }
}

} // verus!
