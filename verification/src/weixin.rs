//! The WeChat channel: callback signature checking, text replies in the
//! XML form WeChat expects, and the module's settings.
use vstd::prelude::*;
use sha1::{Digest, Sha1};
use crate::security::{hex_encode, hex_lower};
use crate::envvars::{env_or, lookup_or};
use crate::text::{chars_of, decimal, decimal_chars, extend_chars, extend_str, string_of};

verus! {

// ───────────────────────── signatures ─────────────────────────

/// The SHA-1 digest of a byte string.
pub uninterp spec fn sha1_digest(data: Seq<u8>) -> Seq<u8>;

/// `Sha1::digest`: the SHA-1 digest of the bytes.
#[verifier::external_body]
fn sha1_of(data: &[u8]) -> (d: Vec<u8>)
    ensures
        d@ == sha1_digest(data@),
{
    Sha1::digest(data).to_vec()
}

/// Lexicographic order on character sequences by code point; for UTF-8
/// strings this is the byte order `str` sorts by.
pub open spec fn chars_le(a: Seq<char>, b: Seq<char>) -> bool
    decreases a.len(),
{
    if a.len() == 0 {
        true
    } else if b.len() == 0 {
        false
    } else if (a[0] as u32) < (b[0] as u32) {
        true
    } else if (a[0] as u32) > (b[0] as u32) {
        false
    } else {
        chars_le(a.drop_first(), b.drop_first())
    }
}

/// Whether `a` sorts before or with `b`.
pub fn str_le(a: &Vec<char>, b: &Vec<char>) -> (r: bool)
    ensures
        r == chars_le(a@, b@),
{
    let mut i: usize = 0;
    assert(a@.skip(0) =~= a@);
    assert(b@.skip(0) =~= b@);
    while i < a.len()
        invariant
            i <= a.len(),
            chars_le(a@, b@) == chars_le(a@.skip(i as int), b@.skip(i as int)),
            i <= b.len(),
        decreases a.len() - i,
    {
        if i == b.len() {
            return false;
        }
        let x = a[i] as u32;
        let y = b[i] as u32;
        proof {
            assert(a@.skip(i as int).drop_first() =~= a@.skip(i + 1));
            assert(b@.skip(i as int).drop_first() =~= b@.skip(i + 1));
        }
        if x < y {
            return true;
        }
        if x > y {
            return false;
        }
        i = i + 1;
    }
    true
}

/// The concatenation of the three parts in sorted order.
pub open spec fn sorted_concat(a: Seq<char>, b: Seq<char>, c: Seq<char>) -> Seq<char> {
    if chars_le(a, b) {
        if chars_le(b, c) {
            a + b + c
        } else if chars_le(a, c) {
            a + c + b
        } else {
            c + a + b
        }
    } else {
        if chars_le(a, c) {
            b + a + c
        } else if chars_le(b, c) {
            b + c + a
        } else {
            c + b + a
        }
    }
}

proof fn lemma_le_total(a: Seq<char>, b: Seq<char>)
    ensures
        chars_le(a, b) || chars_le(b, a),
    decreases a.len(),
{
    if a.len() > 0 && b.len() > 0 && (a[0] as u32) == (b[0] as u32) {
        lemma_le_total(a.drop_first(), b.drop_first());
    }
}

proof fn lemma_char_code_injective(x: char, y: char)
    requires
        (x as u32) == (y as u32),
    ensures
        x == y,
{
    assert((x as int) == (y as int));
}

proof fn lemma_le_antisym(a: Seq<char>, b: Seq<char>)
    requires
        chars_le(a, b),
        chars_le(b, a),
    ensures
        a == b,
    decreases a.len(),
{
    if a.len() > 0 {
        assert(b.len() > 0);
        assert((a[0] as u32) == (b[0] as u32));
        lemma_le_antisym(a.drop_first(), b.drop_first());
        lemma_char_code_injective(a[0], b[0]);
        assert(a =~= seq![a[0]] + a.drop_first());
        assert(b =~= seq![b[0]] + b.drop_first());
    } else {
        assert(b.len() == 0);
        assert(a =~= b);
    }
}

proof fn lemma_le_trans(a: Seq<char>, b: Seq<char>, c: Seq<char>)
    requires
        chars_le(a, b),
        chars_le(b, c),
    ensures
        chars_le(a, c),
    decreases a.len(),
{
    if a.len() > 0 && b.len() > 0 && c.len() > 0 && (a[0] as u32) == (b[0] as u32) && (b[0] as u32) == (c[0] as u32) {
        lemma_le_trans(a.drop_first(), b.drop_first(), c.drop_first());
    }
}

proof fn lemma_le_facts(a: Seq<char>, b: Seq<char>, c: Seq<char>)
    ensures
        chars_le(a, b) || chars_le(b, a),
        chars_le(a, c) || chars_le(c, a),
        chars_le(b, c) || chars_le(c, b),
        chars_le(a, b) && chars_le(b, a) ==> a == b,
        chars_le(a, c) && chars_le(c, a) ==> a == c,
        chars_le(b, c) && chars_le(c, b) ==> b == c,
        chars_le(a, b) && chars_le(b, c) ==> chars_le(a, c),
        chars_le(a, c) && chars_le(c, b) ==> chars_le(a, b),
        chars_le(b, a) && chars_le(a, c) ==> chars_le(b, c),
        chars_le(b, c) && chars_le(c, a) ==> chars_le(b, a),
        chars_le(c, a) && chars_le(a, b) ==> chars_le(c, b),
        chars_le(c, b) && chars_le(b, a) ==> chars_le(c, a),
{
    lemma_le_total(a, b);
    lemma_le_total(a, c);
    lemma_le_total(b, c);
    if chars_le(a, b) && chars_le(b, a) { lemma_le_antisym(a, b); }
    if chars_le(a, c) && chars_le(c, a) { lemma_le_antisym(a, c); }
    if chars_le(b, c) && chars_le(c, b) { lemma_le_antisym(b, c); }
    if chars_le(a, b) && chars_le(b, c) { lemma_le_trans(a, b, c); }
    if chars_le(a, c) && chars_le(c, b) { lemma_le_trans(a, c, b); }
    if chars_le(b, a) && chars_le(a, c) { lemma_le_trans(b, a, c); }
    if chars_le(b, c) && chars_le(c, a) { lemma_le_trans(b, c, a); }
    if chars_le(c, a) && chars_le(a, b) { lemma_le_trans(c, a, b); }
    if chars_le(c, b) && chars_le(b, a) { lemma_le_trans(c, b, a); }
}

/// The order in which token, timestamp and nonce are given does not
/// matter: they are sorted before they are hashed.
pub proof fn lemma_signature_order_free(a: Seq<char>, b: Seq<char>, c: Seq<char>)
    ensures
        expected_signature(a, b, c) == expected_signature(b, a, c),
        expected_signature(a, b, c) == expected_signature(a, c, b),
        expected_signature(a, b, c) == expected_signature(b, c, a),
        expected_signature(a, b, c) == expected_signature(c, a, b),
        expected_signature(a, b, c) == expected_signature(c, b, a),
{
    lemma_le_facts(a, b, c);
    assert(sorted_concat(a, b, c) == sorted_concat(b, a, c));
    assert(sorted_concat(a, b, c) == sorted_concat(a, c, b));
    assert(sorted_concat(a, b, c) == sorted_concat(b, c, a));
    assert(sorted_concat(a, b, c) == sorted_concat(c, a, b));
    assert(sorted_concat(a, b, c) == sorted_concat(c, b, a));
}

/// The signature WeChat sends for a token, timestamp and nonce: the three
/// sorted and concatenated, SHA-1 hashed, lowercase hex.
pub open spec fn expected_signature(token: Seq<char>, timestamp: Seq<char>, nonce: Seq<char>) -> Seq<char> {
    hex_lower(sha1_digest(vstd::utf8::encode_utf8(sorted_concat(token, timestamp, nonce))))
}

/// Checks a WeChat callback signature.
pub fn verify_signature(token: &str, timestamp: &str, nonce: &str, signature: &str) -> (r: bool)
    ensures
        r == (expected_signature(token@, timestamp@, nonce@) == signature@),
{
    let a = chars_of(token);
    let b = chars_of(timestamp);
    let c = chars_of(nonce);
    let mut joined: Vec<char> = Vec::new();
    if str_le(&a, &b) {
        if str_le(&b, &c) {
            extend_chars(&mut joined, &a);
            extend_chars(&mut joined, &b);
            extend_chars(&mut joined, &c);
        } else if str_le(&a, &c) {
            extend_chars(&mut joined, &a);
            extend_chars(&mut joined, &c);
            extend_chars(&mut joined, &b);
        } else {
            extend_chars(&mut joined, &c);
            extend_chars(&mut joined, &a);
            extend_chars(&mut joined, &b);
        }
    } else {
        if str_le(&a, &c) {
            extend_chars(&mut joined, &b);
            extend_chars(&mut joined, &a);
            extend_chars(&mut joined, &c);
        } else if str_le(&b, &c) {
            extend_chars(&mut joined, &b);
            extend_chars(&mut joined, &c);
            extend_chars(&mut joined, &a);
        } else {
            extend_chars(&mut joined, &c);
            extend_chars(&mut joined, &b);
            extend_chars(&mut joined, &a);
        }
    }
    let sorted = string_of(&joined);
    let digest = sha1_of(sorted.as_str().as_bytes());
    let hex = hex_encode(digest.as_slice());
    crate::text::str_eq(hex.as_str(), signature)
}

// ───────────────────────── messages ─────────────────────────

/// A message WeChat delivers to the callback.
#[derive(Debug)]
pub struct WxMessage {
    pub to_user: String,
    pub from_user: String,
    pub create_time: u64,
    pub msg_type: String,
    pub content: Option<String>,
    pub msg_id: Option<String>,
}

/// A reply to a WeChat message.
#[derive(Debug)]
pub struct WxReply {
    pub to_user: String,
    pub from_user: String,
    pub create_time: u64,
    pub msg_type: String,
    pub content: String,
}

/// The current Unix time in seconds (`SystemTime::now()` since the epoch,
/// zero when the clock reads before it). Nothing is stated of the value.
#[verifier::external_body]
fn unix_now_secs() -> u64 {
    std::time::SystemTime::now().duration_since(std::time::UNIX_EPOCH).unwrap_or_default().as_secs()
}

/// The XML body of a text reply.
pub open spec fn reply_xml(to: Seq<char>, from: Seq<char>, time: u64, content: Seq<char>) -> Seq<char> {
    "<xml><ToUserName><![CDATA["@ + to + "]]></ToUserName><FromUserName><![CDATA["@ + from
        + "]]></FromUserName><CreateTime>"@ + decimal(time as nat)
        + "</CreateTime><MsgType><![CDATA[text]]></MsgType><Content><![CDATA["@ + content
        + "]]></Content></xml>"@
}

impl WxReply {
    /// A text reply from `from` to `to`, stamped with the current time (see
    /// `text_at`); the time is read from the system clock.
    pub fn text(from: String, to: String, content: String) -> (r: Self)
        ensures
            r.from_user == from,
            r.to_user == to,
            r.content == content,
            r.msg_type@ == "text"@,
    {
        let now = unix_now_secs();
        WxReply::text_at(from, to, content, now)
    }

    /// A text reply from `from` to `to`, stamped with `create_time`
    /// (seconds since the Unix epoch).
    pub fn text_at(from: String, to: String, content: String, create_time: u64) -> (r: Self)
        ensures
            r.from_user == from,
            r.to_user == to,
            r.content == content,
            r.msg_type@ == "text"@,
            r.create_time == create_time,
    {
        WxReply { to_user: to, from_user: from, create_time, msg_type: "text".to_owned(), content }
    }

    /// The reply as WeChat's XML message. The message type is always
    /// written as `text`.
    pub fn to_xml(&self) -> (r: String)
        ensures
            r@ == reply_xml(self.to_user@, self.from_user@, self.create_time, self.content@),
    {
        let mut out: Vec<char> = Vec::new();
        extend_str(&mut out, "<xml><ToUserName><![CDATA[");
        extend_str(&mut out, self.to_user.as_str());
        extend_str(&mut out, "]]></ToUserName><FromUserName><![CDATA[");
        extend_str(&mut out, self.from_user.as_str());
        extend_str(&mut out, "]]></FromUserName><CreateTime>");
        let t = decimal_chars(self.create_time);
        extend_chars(&mut out, &t);
        extend_str(&mut out, "</CreateTime><MsgType><![CDATA[text]]></MsgType><Content><![CDATA[");
        extend_str(&mut out, self.content.as_str());
        extend_str(&mut out, "]]></Content></xml>");
        string_of(&out)
    }
}

// ───────────────────────── module settings ─────────────────────────

/// Settings of the WeChat channel module.
#[derive(Debug, Clone)]
pub struct WeixinModule {
    pub token: String,
    pub port: u16,
    pub bound: bool,
}

/// Port used when none is configured.
pub const DEFAULT_PORT: u16 = 8787;

/// The digits of a numeral: the text after an optional leading `+`.
pub open spec fn numeral_digits(s: Seq<char>) -> Seq<char> {
    if s.len() > 0 && s[0] == '+' {
        s.drop_first()
    } else {
        s
    }
}

/// Every character of `d` is a decimal digit.
pub open spec fn all_digits(d: Seq<char>) -> bool {
    forall|k: int| 0 <= k < d.len() ==> is_digit(#[trigger] d[k])
}

/// The value of an unsigned decimal numeral with an optional leading `+`,
/// when it fits in a `u16` (`str::parse::<u16>`).
pub open spec fn parse_u16_spec(s: Seq<char>) -> Option<u16> {
    let d = numeral_digits(s);
    if d.len() > 0 && all_digits(d) && digits_value(d) <= u16::MAX {
        Some(digits_value(d) as u16)
    } else {
        None
    }
}

/// A decimal digit.
pub open spec fn is_digit(c: char) -> bool {
    '0' <= c && c <= '9'
}

/// Whether `c` is a decimal digit.
pub fn char_is_digit(c: char) -> (r: bool)
    ensures
        r == is_digit(c),
{
    '0' <= c && c <= '9'
}

/// The value of a string of decimal digits.
pub open spec fn digits_value(d: Seq<char>) -> nat
    decreases d.len(),
{
    if d.len() == 0 {
        0
    } else {
        digits_value(d.drop_last()) * 10 + ((d.last() as u32) - 48) as nat
    }
}

pub(crate) proof fn lemma_digits_value_monotone(d: Seq<char>, i: int)
    requires
        0 <= i <= d.len(),
        forall|k: int| 0 <= k < d.len() ==> is_digit(#[trigger] d[k]),
    ensures
        digits_value(d.take(i)) <= digits_value(d),
    decreases d.len() - i,
{
    if i < d.len() {
        lemma_digits_value_monotone(d, i + 1);
        assert(d.take(i + 1).drop_last() =~= d.take(i));
    } else {
        assert(d.take(i) =~= d);
    }
}

/// Parses a port number.
pub fn parse_port(s: &str) -> (r: Option<u16>)
    ensures
        r == parse_u16_spec(s@),
{
    let v = chars_of(s);
    let start: usize = if v.len() > 0 && v[0] == '+' { 1 } else { 0 };
    let ghost digits = numeral_digits(v@);
    assert(digits =~= v@.skip(start as int));
    if start == v.len() {
        return None;
    }
    let mut value: u32 = 0;
    let mut i: usize = start;
    while i < v.len()
        invariant
            start <= i <= v.len(),
            start < v.len(),
            v@ == s@,
            digits == numeral_digits(s@),
            digits == v@.skip(start as int),
            forall|k: int| start <= k < i ==> is_digit(#[trigger] v@[k]),
            value == digits_value(v@.subrange(start as int, i as int)),
            value <= u16::MAX,
        decreases v.len() - i,
    {
        let c = v[i];
        if !char_is_digit(c) {
            proof {
                assert(digits[i - start] == c);
                assert(!is_digit(digits[i - start]));
                assert(!all_digits(digits));
                assert(parse_u16_spec(s@) is None);
            }
            return None;
        }
        proof {
            let pre = v@.subrange(start as int, i + 1);
            assert(pre.drop_last() =~= v@.subrange(start as int, i as int));
            assert(pre.last() == c);
        }
        value = value * 10 + (c as u32 - 48);
        assert(value == digits_value(v@.subrange(start as int, i + 1)));
        if value > 65535 {
            proof {
                if all_digits(digits) {
                    lemma_digits_value_monotone(digits, i + 1 - start);
                    assert(digits.take(i + 1 - start) =~= v@.subrange(start as int, i + 1));
                }
            }
            return None;
        }
        i = i + 1;
    }
    proof {
        assert(v@.subrange(start as int, v@.len() as int) =~= digits);
        assert forall|k: int| 0 <= k < digits.len() implies is_digit(#[trigger] digits[k]) by {
            assert(digits[k] == v@[start + k]);
        }
    }
    Some(value as u16)
}

impl WeixinModule {
    /// The module's settings from the `WEIXIN_TOKEN` and `WEIXIN_PORT`
    /// values: the token (empty when unset), the port when it parses as a
    /// number (8787 otherwise), and bound exactly when the token is
    /// non-empty.
    pub fn new(token_var: Option<String>, port_var: Option<String>) -> (m: Self)
        ensures
            m.token@ == match token_var {
                Some(t) => t@,
                None => Seq::<char>::empty(),
            },
            m.port == match port_var {
                Some(p) => match parse_u16_spec(p@) {
                    Some(n) => n,
                    None => DEFAULT_PORT,
                },
                None => DEFAULT_PORT,
            },
            m.bound == (m.token@.len() > 0),
    {
        let token = match token_var {
            Some(t) => t,
            None => String::new(),
        };
        let port = match port_var {
            Some(p) => match parse_port(p.as_str()) {
                Some(n) => n,
                None => DEFAULT_PORT,
            },
            None => DEFAULT_PORT,
        };
        let bound = !token.as_str().is_empty();
        WeixinModule { token, port, bound }
    }
}

// ───────────────────────── callback server ─────────────────────────

/// The answer to WeChat's URL-verification callback: the `echostr`
/// parameter when the `signature` parameter is the expected signature of
/// `token`, `timestamp` and `nonce`, else `fail`. Missing parameters count
/// as empty.
pub open spec fn callback_answer(token: Seq<char>, query: Seq<(String, String)>) -> Seq<char> {
    if expected_signature(token, env_or(query, "timestamp"@, ""@), env_or(query, "nonce"@, ""@))
        == env_or(query, "signature"@, ""@) {
        env_or(query, "echostr"@, ""@)
    } else {
        "fail"@
    }
}

/// Answers WeChat's URL-verification callback; the token is `WEIXIN_TOKEN`
/// (empty when unset).
pub fn verify_callback(env: &Vec<(String, String)>, query: &Vec<(String, String)>) -> (r: String)
    ensures
        r@ == callback_answer(env_or(env@, "WEIXIN_TOKEN"@, ""@), query@),
{
    let token = lookup_or(env, "WEIXIN_TOKEN", "");
    let sig = lookup_or(query, "signature", "");
    let ts = lookup_or(query, "timestamp", "");
    let nonce = lookup_or(query, "nonce", "");
    let echo = lookup_or(query, "echostr", "");
    if verify_signature(token.as_str(), ts.as_str(), nonce.as_str(), sig.as_str()) {
        echo
    } else {
        "fail".to_owned()
    }
}

/// The answer to a bind request: with a non-empty `token` parameter the
/// binding succeeds and hands the token on; otherwise the parameter is
/// reported missing.
pub fn bind_answer(query: &Vec<(String, String)>) -> (r: (&'static str, Option<String>))
    ensures
        env_or(query@, "token"@, ""@).len() > 0 ==> r.0@ == "✅ 绑定成功！可以关闭此页面。"@ && r.1 is Some
            && r.1.unwrap()@ == env_or(query@, "token"@, ""@),
        env_or(query@, "token"@, ""@).len() == 0 ==> r.0@ == "❌ 缺少 token 参数"@ && r.1 is None,
{
    let token = lookup_or(query, "token", "");
    if chars_of(token.as_str()).len() > 0 {
        ("✅ 绑定成功！可以关闭此页面。", Some(token))
    } else {
        ("❌ 缺少 token 参数", None)
    }
}

impl WeixinModule {
    /// Records a completed binding: the token the callback delivered.
    pub fn complete_bind(&mut self, token: String)
        ensures
            final(self).token@ == token@,
            final(self).bound,
            final(self).port == old(self).port,
    {
        self.token = token;
        self.bound = true;
    }
}

/// The error when binding fails.
pub fn bind_failed(reason: &str) -> (e: crate::module::ModuleError)
    ensures
        e matches crate::module::ModuleError::Runtime(m) && m@ == "绑定失败: "@ + reason@,
{
    crate::module::ModuleError::Runtime(crate::text::concat("绑定失败: ", reason))
}

/// The URL the binding QR code points to.
pub open spec fn bind_url_of(port: u16) -> Seq<char> {
    "http://localhost:"@ + decimal(port as nat) + "/wechat/bind"@
}

/// Builds the URL the binding QR code points to.
pub fn bind_url(port: u16) -> (r: String)
    ensures
        r@ == bind_url_of(port),
{
    let mut v = chars_of("http://localhost:");
    let d = decimal_chars(port as u64);
    extend_chars(&mut v, &d);
    extend_str(&mut v, "/wechat/bind");
    string_of(&v)
}

/// The decimal rendering of a number is a numeral of that number: not
/// empty, all digits, without a sign.
pub proof fn lemma_decimal_numeral(n: nat)
    ensures
        decimal(n).len() > 0,
        all_digits(decimal(n)),
        decimal(n)[0] != '+',
        digits_value(decimal(n)) == n,
    decreases n,
{
    if n < 10 {
        assert(decimal(n) == seq![crate::text::digit_char(n)]);
        assert(decimal(n).drop_last() =~= Seq::<char>::empty());
        assert((crate::text::digit_char(n) as u32) == 48 + n);
        assert(digits_value(decimal(n)) == digits_value(decimal(n).drop_last()) * 10 + ((decimal(n).last() as u32) - 48) as nat);
    } else {
        lemma_decimal_numeral(n / 10);
        let d = decimal(n);
        assert(d.drop_last() =~= decimal(n / 10));
        assert((crate::text::digit_char(n % 10) as u32) == 48 + n % 10);
        assert(d.last() == crate::text::digit_char(n % 10));
        assert(n == (n / 10) * 10 + n % 10);
        assert(digits_value(d) == digits_value(d.drop_last()) * 10 + ((d.last() as u32) - 48) as nat);
        assert forall|k: int| 0 <= k < d.len() implies is_digit(#[trigger] d[k]) by {
            if k < d.len() - 1 {
                assert(d[k] == decimal(n / 10)[k]);
            }
        }
    }
}

} // verus!
