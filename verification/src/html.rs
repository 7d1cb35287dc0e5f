//! Tag stripping for page content read back from a browser tab.
use vstd::prelude::*;
use crate::text::{chars_of, collapse_whitespace, collapse_ws, string_of};

verus! {

/// The characters of `s` that lie outside `<…>` tags, where `in_tag` says
/// whether the scan starts inside a tag. `<` opens a tag and `>` closes one;
/// neither is kept.
pub open spec fn outside_tags(s: Seq<char>, in_tag: bool) -> Seq<char>
    decreases s.len(),
{
    if s.len() == 0 {
        Seq::empty()
    } else if s[0] == '<' {
        outside_tags(s.drop_first(), true)
    } else if s[0] == '>' {
        outside_tags(s.drop_first(), false)
    } else if in_tag {
        outside_tags(s.drop_first(), true)
    } else {
        seq![s[0]] + outside_tags(s.drop_first(), false)
    }
}

/// The text of an HTML fragment: the characters outside tags, with runs of
/// whitespace collapsed to single spaces and no leading or trailing space.
pub open spec fn stripped_text(html: Seq<char>) -> Seq<char> {
    collapse_ws(outside_tags(html, false))
}

/// Removes the tags of an HTML fragment and collapses its whitespace.
pub fn strip_html(html: &str) -> (r: String)
    ensures
        r@ == stripped_text(html@),
{
    let s = chars_of(html);
    let mut kept: Vec<char> = Vec::new();
    let mut t = false;
    let mut i: usize = 0;
    assert(s@.skip(0) =~= s@);
    while i < s.len()
        invariant
            i <= s.len(),
            kept@ + outside_tags(s@.skip(i as int), t) == outside_tags(s@, false),
        decreases s.len() - i,
    {
        let c = s[i];
        proof {
            assert(s@.skip(i as int).drop_first() =~= s@.skip(i + 1));
        }
        let ghost before = kept@;
        if c == '<' {
            t = true;
        } else if c == '>' {
            t = false;
        } else if !t {
            kept.push(c);
            assert(before + (seq![c] + outside_tags(s@.skip(i + 1), false)) =~= kept@
                + outside_tags(s@.skip(i + 1), false));
        }
        i = i + 1;
    }
    assert(kept@ + Seq::<char>::empty() =~= kept@);
    let r = collapse_whitespace(&kept);
    string_of(&r)
}

} // verus!
