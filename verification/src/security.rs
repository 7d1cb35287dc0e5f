//! Remote-access security: a random 32-byte token, hex-encoded, that
//! remote clients must present.
use vstd::prelude::*;
use rand::Rng;

verus! {

/// The lowercase hexadecimal digit for `n < 16`.
pub open spec fn hex_digit(n: int) -> char {
    if n < 10 {
        ((48 + n) as u32) as char
    } else {
        ((87 + n) as u32) as char
    }
}

/// Lowercase hexadecimal encoding: two digits per byte, high nibble first.
pub open spec fn hex_lower(b: Seq<u8>) -> Seq<char>
    decreases b.len(),
{
    if b.len() == 0 {
        Seq::empty()
    } else {
        seq![hex_digit(b[0] as int / 16), hex_digit(b[0] as int % 16)] + hex_lower(b.drop_first())
    }
}

/// A lowercase hexadecimal digit.
pub open spec fn is_hex_lower_digit(c: char) -> bool {
    ('0' <= c && c <= '9') || ('a' <= c && c <= 'f')
}

/// The encoding of `b` has two lowercase hex digits per byte.
pub proof fn lemma_hex_lower_shape(b: Seq<u8>)
    ensures
        hex_lower(b).len() == 2 * b.len(),
        forall|k: int| 0 <= k < hex_lower(b).len() ==> is_hex_lower_digit(#[trigger] hex_lower(b)[k]),
    decreases b.len(),
{
    if b.len() > 0 {
        lemma_hex_lower_shape(b.drop_first());
        let h = hex_lower(b);
        let t = hex_lower(b.drop_first());
        assert forall|k: int| 0 <= k < h.len() implies is_hex_lower_digit(#[trigger] h[k]) by {
            if k >= 2 {
                assert(h[k] == t[k - 2]);
            }
        }
    }
}

/// `hex::encode`: the lowercase hexadecimal encoding of the bytes, two
/// digits per byte, high nibble first.
#[verifier::external_body]
pub(crate) fn hex_encode(bytes: &[u8]) -> (s: String)
    ensures
        s@ == hex_lower(bytes@),
{
    hex::encode(bytes)
}

/// `rand::thread_rng().gen::<u8>()`: a random byte. Nothing is stated of it.
#[verifier::external_body]
fn random_byte() -> u8 {
    rand::thread_rng().gen::<u8>()
}

/// A token: the hex encoding of some 32 bytes.
pub open spec fn is_token(t: Seq<char>) -> bool {
    exists|b: Seq<u8>| b.len() == 32 && t == hex_lower(b)
}

/// A fresh token: 32 random bytes, hex-encoded.
fn generate_token() -> (t: String)
    ensures
        is_token(t@),
{
    let mut bytes: Vec<u8> = Vec::new();
    let mut i: usize = 0;
    while i < 32
        invariant
            i <= 32,
            bytes@.len() == i,
        decreases 32 - i,
    {
        bytes.push(random_byte());
        i = i + 1;
    }
    let t = hex_encode(bytes.as_slice());
    assert(bytes@.len() == 32 && t@ == hex_lower(bytes@));
    t
}

/// Holds the token that remote connections authenticate with.
pub struct Security {
    token: String,
}

impl Security {
    /// The current token.
    pub closed spec fn token_view(self) -> Seq<char> {
        self.token@
    }

    /// The token is always the hex encoding of 32 bytes.
    pub open spec fn wf(self) -> bool {
        is_token(self.token_view())
    }

    /// A fresh random token.
    pub fn new() -> (s: Self)
        ensures
            s.wf(),
    {
        Security { token: generate_token() }
    }

    /// Whether `token` is non-empty and equals the current token.
    pub fn verify(&self, token: &str) -> (r: bool)
        ensures
            r == (token@.len() > 0 && token@ == self.token_view()),
    {
        !token.is_empty() && crate::text::str_eq(token, self.token.as_str())
    }

    /// The current token.
    pub fn token(&self) -> (r: &str)
        ensures
            r@ == self.token_view(),
    {
        self.token.as_str()
    }

    /// Replaces the token by a fresh random one.
    pub fn regenerate(&mut self)
        ensures
            final(self).wf(),
    {
        self.token = generate_token();
    }
}

/// A token is 64 lowercase hexadecimal digits, so the holder of the current
/// token always passes verification.
pub proof fn lemma_token_shape(s: Security)
    requires
        s.wf(),
    ensures
        s.token_view().len() == 64,
        forall|k: int| 0 <= k < 64 ==> is_hex_lower_digit(#[trigger] s.token_view()[k]),
{
    let b = choose|b: Seq<u8>| b.len() == 32 && s.token_view() == hex_lower(b);
    lemma_hex_lower_shape(b);
}

} // verus!
