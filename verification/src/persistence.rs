//! The storage layout of the memory mesh: how many memories a store keeps,
//! the names of the per-scene database files, the keys of a table's
//! records and its record count, and the compression of stored records.
use vstd::prelude::*;
use crate::lsp::{parse_bounded, parse_bounded_spec};
use crate::text::{chars_of, decimal, decimal_chars, extend_str, slice_chars, string_of};
use crate::weixin::{lemma_decimal_numeral, numeral_digits};

verus! {

/// How many memories a store of `mb` megabytes keeps: one per 512 bytes,
/// and at least one.
pub open spec fn capacity_of(mb: u32) -> nat {
    if mb as nat * 1024 / 512 >= 1 { mb as nat * 1024 / 512 } else { 1 }
}

/// The number of memories kept in a store of `mb` megabytes.
pub fn memory_capacity(mb: u32) -> (r: usize)
    requires
        mb as nat * 1024 <= usize::MAX,
    ensures
        r == capacity_of(mb),
{
    let n = mb as usize * 1024 / 512;
    if n >= 1 { n } else { 1 }
}

/// The file name of a scene's database.
pub open spec fn scene_file_name_of(id: u64) -> Seq<char> {
    decimal(id as nat) + ".redb"@
}

/// Names the database file of scene `id`.
pub fn scene_file_name(id: u64) -> (r: String)
    ensures
        r@ == scene_file_name_of(id),
{
    let mut v = decimal_chars(id);
    extend_str(&mut v, ".redb");
    string_of(&v)
}

/// The scene a database file belongs to: a name ending in `.redb` whose
/// stem is a `u64` numeral.
pub open spec fn scene_of_file_name(name: Seq<char>) -> Option<u64> {
    if name.len() >= 5 && name.skip(name.len() - 5) == ".redb"@ {
        match parse_bounded_spec(name.take(name.len() - 5), u64::MAX as nat) {
            Some(n) => Some(n as u64),
            None => None,
        }
    } else {
        None
    }
}

/// Reads the scene id from a database file name.
pub fn scene_id_of_file(name: &str) -> (r: Option<u64>)
    ensures
        r == scene_of_file_name(name@),
{
    let v = chars_of(name);
    let n = v.len();
    if n < 5 {
        return None;
    }
    let tail = slice_chars(&v, n - 5, n);
    let suffix = chars_of(".redb");
    assert(tail@ =~= v@.skip(n - 5));
    if !crate::text::chars_eq(&tail, &suffix) {
        return None;
    }
    let stem = slice_chars(&v, 0, n - 5);
    assert(stem@ =~= v@.take(n - 5));
    parse_bounded(&stem, u64::MAX)
}

/// Naming a scene's file and reading the id back out of the name gives the
/// scene's id.
pub proof fn lemma_scene_file_roundtrip(id: u64)
    ensures
        scene_of_file_name(scene_file_name_of(id)) == Some(id),
{
    let name = scene_file_name_of(id);
    let d = decimal(id as nat);
    lemma_decimal_numeral(id as nat);
    reveal_strlit(".redb");
    assert(name.skip(name.len() - 5) =~= ".redb"@);
    assert(name.take(name.len() - 5) =~= d);
    assert(numeral_digits(d) == d);
}

// ───────────────────────── table keys and counts ─────────────────────────

/// 256 to the power `k`.
pub open spec fn pow256(k: nat) -> nat
    decreases k,
{
    if k == 0 {
        1
    } else {
        256 * pow256((k - 1) as nat)
    }
}

/// The last `len` bytes of `n` in big-endian order.
pub open spec fn be_bytes(n: nat, len: nat) -> Seq<u8>
    decreases len,
{
    if len == 0 {
        Seq::empty()
    } else {
        be_bytes(n / 256, (len - 1) as nat).push((n % 256) as u8)
    }
}

/// The number that big-endian bytes stand for.
pub open spec fn be_value(s: Seq<u8>) -> nat
    decreases s.len(),
{
    if s.len() == 0 {
        0
    } else {
        be_value(s.drop_last()) * 256 + s.last() as nat
    }
}

/// The key a table keeps its record count under: `__count__`.
pub open spec fn count_key_bytes() -> Seq<u8> {
    seq![95u8, 95u8, 99u8, 111u8, 117u8, 110u8, 116u8, 95u8, 95u8]
}

/// The record count a table holds: the big-endian number stored under the
/// count key when it is eight bytes long, and 0 when it is missing or of
/// another length.
pub open spec fn count_of_stored(value: Option<Seq<u8>>) -> nat {
    match value {
        Some(v) => if v.len() == 8 { be_value(v) } else { 0 },
        None => 0,
    }
}

proof fn lemma_be_value_bound(s: Seq<u8>)
    ensures
        be_value(s) < pow256(s.len()),
    decreases s.len(),
{
    if s.len() > 0 {
        lemma_be_value_bound(s.drop_last());
        let x = be_value(s.drop_last());
        let p = pow256(s.drop_last().len());
        let y = s.last() as nat;
        assert(x * 256 + y < p * 256) by (nonlinear_arith)
            requires
                x < p,
                y < 256,
        ;
    }
}

proof fn lemma_be_roundtrip(n: nat, len: nat)
    ensures
        be_value(be_bytes(n, len)) == n % pow256(len),
        be_bytes(n, len).len() == len,
    decreases len,
{
    if len > 0 {
        lemma_be_roundtrip(n / 256, (len - 1) as nat);
        let b = be_bytes(n, len);
        assert(b.drop_last() =~= be_bytes(n / 256, (len - 1) as nat));
        let q: int = n as int / 256;
        let p: int = pow256((len - 1) as nat) as int;
        lemma_pow256_pos((len - 1) as nat);
        vstd::arithmetic::div_mod::lemma_breakdown(n as int, 256, p);
        assert(pow256(len) == 256 * pow256((len - 1) as nat));
        assert(be_value(b) == (q % p) * 256 + n % 256);
        vstd::arithmetic::mul::lemma_mul_is_commutative(256, q % p);
    }
}

proof fn lemma_pow256_pos(k: nat)
    ensures
        pow256(k) > 0,
    decreases k,
{
    if k > 0 {
        lemma_pow256_pos((k - 1) as nat);
    }
}

proof fn lemma_pow256_eight()
    ensures
        pow256(8) == 0x1_0000_0000_0000_0000,
{
    reveal_with_fuel(pow256, 9);
}

/// A record count written under the count key reads back as the same
/// count.
pub proof fn lemma_count_roundtrip(n: u64)
    ensures
        count_of_stored(Some(be_bytes(n as nat, 8))) == n,
{
    lemma_be_roundtrip(n as nat, 8);
    lemma_pow256_eight();
}

/// The big-endian bytes of `n`, the last `len` of them.
fn be_bytes_of(n: u64, len: usize) -> (r: Vec<u8>)
    ensures
        r@ == be_bytes(n as nat, len as nat),
    decreases len,
{
    if len == 0 {
        Vec::new()
    } else {
        let mut v = be_bytes_of(n / 256, len - 1);
        v.push((n % 256) as u8);
        v
    }
}

/// The key of record `i` of a table: `i` as eight big-endian bytes.
pub fn record_key(i: u64) -> (r: Vec<u8>)
    ensures
        r@ == be_bytes(i as nat, 8),
{
    be_bytes_of(i, 8)
}

/// The key a table keeps its record count under.
pub fn count_key() -> (r: Vec<u8>)
    ensures
        r@ == count_key_bytes(),
{
    let r: Vec<u8> = vec![95u8, 95u8, 99u8, 111u8, 117u8, 110u8, 116u8, 95u8, 95u8];
    assert(r@ =~= count_key_bytes());
    r
}

/// The value written under the count key for `n` records.
pub fn count_value(n: u64) -> (r: Vec<u8>)
    ensures
        r@ == be_bytes(n as nat, 8),
{
    be_bytes_of(n, 8)
}

/// Reads a table's record count from what is stored under the count key.
pub fn stored_count(value: Option<&[u8]>) -> (r: u64)
    ensures
        r == count_of_stored(match value {
            Some(v) => Some(v@),
            None => None,
        }),
{
    match value {
        None => 0,
        Some(v) => {
            if v.len() != 8 {
                return 0;
            }
            let mut acc: u64 = 0;
            let mut k: usize = 0;
            while k < 8
                invariant
                    k <= 8,
                    v@.len() == 8,
                    acc == be_value(v@.take(k as int)),
                decreases 8 - k,
            {
                proof {
                    lemma_be_value_bound(v@.take(k as int));
                    reveal_with_fuel(pow256, 9);
                    assert(pow256(k as nat) <= pow256(7)) by {
                        lemma_pow256_mono(k as nat, 7);
                    }
                    assert(acc * 256 + 255 < 0x1_0000_0000_0000_0000) by (nonlinear_arith)
                        requires
                            acc < 0x100_0000_0000_0000,
                    ;
                    assert(v@.take(k + 1).drop_last() =~= v@.take(k as int));
                }
                acc = acc * 256 + v[k] as u64;
                k = k + 1;
            }
            assert(v@.take(8) =~= v@);
            acc
        },
    }
}

proof fn lemma_pow256_mono(a: nat, b: nat)
    requires
        a <= b,
    ensures
        pow256(a) <= pow256(b),
    decreases b,
{
    if a < b {
        lemma_pow256_mono(a, (b - 1) as nat);
    }
}

// ───────────────────────── compressed records ─────────────────────────

/// What zstd's `encode_all` gives for `data` at `level`: the frame, or
/// nothing when it fails.
pub uninterp spec fn zstd_encoded(data: Seq<u8>, level: i32) -> Option<Seq<u8>>;

/// What zstd's `decode_all` gives for `data`: the decompressed bytes, or
/// nothing when `data` is not a valid zstd frame.
pub uninterp spec fn zstd_decoded(data: Seq<u8>) -> Option<Seq<u8>>;

/// Compresses `data` with `zstd::encode_all` at `level`. The contract
/// claims that the outcome is a function of `data` and `level`, and that
/// decoding the frame gives `data` back (zstd is lossless); what the frame
/// holds is not stated.
#[verifier::external_body]
fn zstd_encode(data: &[u8], level: i32) -> (r: Result<Vec<u8>, String>)
    ensures
        match r {
            Ok(v) => zstd_encoded(data@, level) == Some(v@),
            Err(_) => zstd_encoded(data@, level) is None,
        },
        r matches Ok(v) ==> zstd_decoded(v@) == Some(data@),
{
    match zstd::encode_all(data, level) {
        Ok(v) => Ok(v),
        Err(e) => Err(e.to_string()),
    }
}

/// Decompresses `data` with `zstd::decode_all`. The contract claims that
/// the outcome is a function of `data`; what it decodes to is not stated.
#[verifier::external_body]
fn zstd_decode(data: &[u8]) -> (r: Option<Vec<u8>>)
    ensures
        match r {
            Some(v) => zstd_decoded(data@) == Some(v@),
            None => zstd_decoded(data@) is None,
        },
{
    match zstd::decode_all(data) {
        Ok(v) => Some(v),
        Err(_) => None,
    }
}

/// The compression level records are stored with.
pub const RECORD_LEVEL: i32 = 3;

/// Compresses a serialized record for storage, at level 3. What it
/// stores reads back (see `record_bytes`) as the record itself.
pub fn compress_record(data: &[u8]) -> (r: Result<Vec<u8>, String>)
    ensures
        match r {
            Ok(v) => zstd_encoded(data@, 3) == Some(v@),
            Err(_) => zstd_encoded(data@, 3) is None,
        },
        r matches Ok(v) ==> record_bytes(v@) == data@,
{
    zstd_encode(data, RECORD_LEVEL)
}

/// The serialized record held by a stored value: its decompression when it
/// is a zstd frame, the stored bytes themselves otherwise.
pub open spec fn record_bytes(stored: Seq<u8>) -> Seq<u8> {
    match zstd_decoded(stored) {
        Some(d) => d,
        None => stored,
    }
}

/// Reads the serialized record out of a stored value.
pub fn record_payload(stored: &[u8]) -> (r: Vec<u8>)
    ensures
        r@ == record_bytes(stored@),
{
    match zstd_decode(stored) {
        Some(d) => d,
        None => copy_bytes(stored),
    }
}

/// A copy of `s`.
fn copy_bytes(s: &[u8]) -> (r: Vec<u8>)
    ensures
        r@ == s@,
{
    let mut r: Vec<u8> = Vec::new();
    let mut i: usize = 0;
    while i < s.len()
        invariant
            i <= s@.len(),
            r@ == s@.take(i as int),
        decreases s@.len() - i,
    {
        r.push(s[i]);
        assert(s@.take(i + 1) =~= s@.take(i as int).push(s@[i as int]));
        i = i + 1;
    }
    assert(s@.take(s@.len() as int) =~= s@);
    r
}

} // verus!
