//! A snapshot of the process environment as (name, value) pairs, and the
//! lookups that configuration code makes in it.
use vstd::prelude::*;
use crate::text::str_eq;

verus! {

/// The value of the first variable named `key`, if any.
pub open spec fn env_lookup(env: Seq<(String, String)>, key: Seq<char>) -> Option<Seq<char>>
    decreases env.len(),
{
    if env.len() == 0 {
        None
    } else if env[0].0@ == key {
        Some(env[0].1@)
    } else {
        env_lookup(env.drop_first(), key)
    }
}

/// The value of `key`, or `default` where it is unset.
pub open spec fn env_or(env: Seq<(String, String)>, key: Seq<char>, default: Seq<char>) -> Seq<char> {
    match env_lookup(env, key) {
        Some(v) => v,
        None => default,
    }
}

/// Looks `key` up in `env`.
pub fn lookup(env: &Vec<(String, String)>, key: &str) -> (r: Option<String>)
    ensures
        match r {
            Some(v) => env_lookup(env@, key@) == Some(v@),
            None => env_lookup(env@, key@) is None,
        },
{
    let mut i: usize = 0;
    assert(env@.skip(0) =~= env@);
    while i < env.len()
        invariant
            i <= env@.len(),
            env_lookup(env@.skip(i as int), key@) == env_lookup(env@, key@),
        decreases env@.len() - i,
    {
        assert(env@.skip(i as int).drop_first() =~= env@.skip(i + 1));
        if str_eq(env[i].0.as_str(), key) {
            return Some(env[i].1.clone());
        }
        i = i + 1;
    }
    None
}

/// Looks `key` up in `env`, falling back to `default`.
pub fn lookup_or(env: &Vec<(String, String)>, key: &str, default: &str) -> (r: String)
    ensures
        r@ == env_or(env@, key@, default@),
{
    match lookup(env, key) {
        Some(v) => v,
        None => default.to_owned(),
    }
}

} // verus!
