//! The xAI sign-in session: JWT expiry, token freshness, the in-process token cache, the
//! issuer URL check, refresh and device-code poll decisions, and the auth status label.
//! HTTP requests and the session file are handled by the caller.
use vstd::prelude::*;
use crate::text::{chars_of, contains, contains_chars, decimal, push_str, starts_with, starts_with_chars, str_eq, string_from, trim, u64_to_string};

verus! {

/// Refresh this many seconds before the JWT `exp` (access tokens last about six hours).
pub const REFRESH_SKEW_SECS: u64 = 3600;

/// Value of a base64 digit (standard alphabet).
pub open spec fn b64_val(c: u8) -> Option<u8> {
    if 65 <= c <= 90 {
        Some((c - 65) as u8)
    } else if 97 <= c <= 122 {
        Some((c - 97 + 26) as u8)
    } else if 48 <= c <= 57 {
        Some((c - 48 + 52) as u8)
    } else if c == 43 {
        Some(62)
    } else if c == 47 {
        Some(63)
    } else {
        None
    }
}

fn b64_value(c: u8) -> (r: Option<u8>)
    ensures
        r == b64_val(c),
{
    if 65 <= c && c <= 90 {
        Some(c - 65)
    } else if 97 <= c && c <= 122 {
        Some(c - 97 + 26)
    } else if 48 <= c && c <= 57 {
        Some(c - 48 + 52)
    } else if c == 43 {
        Some(62)
    } else if c == 47 {
        Some(63)
    } else {
        None
    }
}

/// URL-safe base64 bytes in the standard alphabet (`-` to `+`, `_` to `/`), padded with `=`
/// to a multiple of four.
pub open spec fn to_standard_b64(b: Seq<u8>) -> Seq<u8> {
    let m = b.map_values(|x: u8| if x == 45 { 43u8 } else if x == 95 { 47u8 } else { x });
    let pad = ((4 - b.len() % 4) % 4) as nat;
    m + Seq::new(pad, |i: int| 61u8)
}

/// The bytes one group of four digits gives (`None` when a needed digit is invalid): three
/// bytes, or fewer when the third or fourth digit is `=`.
pub open spec fn b64_group(a: u8, b: u8, c: u8, d: u8) -> Option<Seq<u8>> {
    match (b64_val(a), b64_val(b)) {
        (Some(va), Some(vb)) => {
            let x0 = (va * 4 + vb / 16) as u8;
            if c == 61 {
                Some(seq![x0])
            } else {
                match b64_val(c) {
                    Some(vc) => {
                        let x1 = ((vb % 16) * 16 + vc / 4) as u8;
                        if d == 61 {
                            Some(seq![x0, x1])
                        } else {
                            match b64_val(d) {
                                Some(vd) => Some(seq![x0, x1, ((vc % 4) * 64 + vd) as u8]),
                                None => None,
                            }
                        }
                    },
                    None => None,
                }
            }
        },
        _ => None,
    }
}

/// Decodes whole groups from position `i`; a group starting with `=` ends the data.
pub open spec fn b64_groups_from(b: Seq<u8>, i: int) -> Option<Seq<u8>>
    decreases b.len() - i,
{
    if i < 0 || i + 4 > b.len() {
        Some(seq![])
    } else if b[i] == 61 {
        Some(seq![])
    } else {
        match b64_group(b[i], b[i + 1], b[i + 2], b[i + 3]) {
            None => None,
            Some(g) => match b64_groups_from(b, i + 4) {
                None => None,
                Some(rest) => Some(g + rest),
            },
        }
    }
}

/// URL-safe base64 decoding of the UTF-8 bytes of a token segment.
pub open spec fn b64url_decoded(bytes: Seq<u8>) -> Option<Seq<u8>> {
    b64_groups_from(to_standard_b64(bytes), 0)
}

fn b64_group_exec(a: u8, b: u8, c: u8, d: u8, out: &mut Vec<u8>) -> (ok: bool)
    ensures
        ok == (b64_group(a, b, c, d) is Some),
        ok ==> final(out)@ == old(out)@ + b64_group(a, b, c, d)->Some_0,
{
    let va = match b64_value(a) {
        Some(v) => v,
        None => return false,
    };
    let vb = match b64_value(b) {
        Some(v) => v,
        None => return false,
    };
    let x0: u8 = va * 4 + vb / 16;
    if c == 61 {
        out.push(x0);
        return true;
    }
    let vc = match b64_value(c) {
        Some(v) => v,
        None => return false,
    };
    let x1: u8 = (vb % 16) * 16 + vc / 4;
    if d == 61 {
        out.push(x0);
        out.push(x1);
        return true;
    }
    let vd = match b64_value(d) {
        Some(v) => v,
        None => return false,
    };
    out.push(x0);
    out.push(x1);
    out.push((vc % 4) * 64 + vd);
    true
}

/// The URL-safe base64 digit for a 6-bit value.
pub open spec fn b64url_digit(v: int) -> u8 {
    if v < 26 {
        (65 + v) as u8
    } else if v < 52 {
        (97 + v - 26) as u8
    } else if v < 62 {
        (48 + v - 52) as u8
    } else if v == 62 {
        45
    } else {
        95
    }
}

/// The standard base64 digit for a 6-bit value.
pub open spec fn b64_digit(v: int) -> u8 {
    if v < 62 { b64url_digit(v) } else if v == 62 { 43 } else { 47 }
}

/// Unpadded URL-safe base64 of `d`: four digits per three bytes, and two or three digits
/// for a last group of one or two bytes.
pub open spec fn b64url_encoded(d: Seq<u8>) -> Seq<u8>
    decreases d.len(),
{
    if d.len() == 0 {
        seq![]
    } else if d.len() == 1 {
        seq![b64url_digit((d[0] as int) / 4), b64url_digit(((d[0] as int) % 4) * 16)]
    } else if d.len() == 2 {
        seq![
            b64url_digit((d[0] as int) / 4),
            b64url_digit(((d[0] as int) % 4) * 16 + (d[1] as int) / 16),
            b64url_digit(((d[1] as int) % 16) * 4),
        ]
    } else {
        seq![
            b64url_digit((d[0] as int) / 4),
            b64url_digit(((d[0] as int) % 4) * 16 + (d[1] as int) / 16),
            b64url_digit(((d[1] as int) % 16) * 4 + (d[2] as int) / 64),
            b64url_digit((d[2] as int) % 64),
        ] + b64url_encoded(d.skip(3))
    }
}

/// The standard, padded base64 of `d`, group by group.
spec fn b64_padded(d: Seq<u8>) -> Seq<u8>
    decreases d.len(),
{
    if d.len() == 0 {
        seq![]
    } else if d.len() == 1 {
        seq![b64_digit((d[0] as int) / 4), b64_digit(((d[0] as int) % 4) * 16), 61u8, 61u8]
    } else if d.len() == 2 {
        seq![b64_digit((d[0] as int) / 4), b64_digit(((d[0] as int) % 4) * 16 + (d[1] as int) / 16), b64_digit(((d[1] as int) % 16) * 4), 61u8]
    } else {
        seq![
            b64_digit((d[0] as int) / 4),
            b64_digit(((d[0] as int) % 4) * 16 + (d[1] as int) / 16),
            b64_digit(((d[1] as int) % 16) * 4 + (d[2] as int) / 64),
            b64_digit((d[2] as int) % 64),
        ] + b64_padded(d.skip(3))
    }
}

spec fn url_to_std(x: u8) -> u8 {
    if x == 45 { 43u8 } else if x == 95 { 47u8 } else { x }
}

proof fn lemma_digit_std(v: int)
    requires
        0 <= v < 64,
    ensures
        url_to_std(b64url_digit(v)) == b64_digit(v),
        b64_val(b64_digit(v)) == Some(v as u8),
        b64_digit(v) != 61,
{
}

proof fn lemma_std_of_encoded(d: Seq<u8>)
    ensures
        to_standard_b64(b64url_encoded(d)) == b64_padded(d),
    decreases d.len(),
{
    let e = b64url_encoded(d);
    let f = |x: u8| if x == 45 { 43u8 } else if x == 95 { 47u8 } else { x };
    if d.len() == 0 {
        assert(to_standard_b64(e) =~= b64_padded(d));
    } else if d.len() <= 2 {
        lemma_digit_std((d[0] as int) / 4);
        if d.len() == 1 {
            lemma_digit_std(((d[0] as int) % 4) * 16);
        } else {
            lemma_digit_std(((d[0] as int) % 4) * 16 + (d[1] as int) / 16);
            lemma_digit_std(((d[1] as int) % 16) * 4);
        }
        assert(to_standard_b64(e) =~= b64_padded(d));
    } else {
        let r = d.skip(3);
        lemma_std_of_encoded(r);
        let g = seq![
            b64url_digit((d[0] as int) / 4),
            b64url_digit(((d[0] as int) % 4) * 16 + (d[1] as int) / 16),
            b64url_digit(((d[1] as int) % 16) * 4 + (d[2] as int) / 64),
            b64url_digit((d[2] as int) % 64),
        ];
        lemma_digit_std((d[0] as int) / 4);
        lemma_digit_std(((d[0] as int) % 4) * 16 + (d[1] as int) / 16);
        lemma_digit_std(((d[1] as int) % 16) * 4 + (d[2] as int) / 64);
        lemma_digit_std((d[2] as int) % 64);
        let er = b64url_encoded(r);
        assert(e == g + er);
        assert((g + er).map_values(f) =~= g.map_values(f) + er.map_values(f));
        assert((g + er).len() % 4 == er.len() % 4);
        assert(to_standard_b64(e) =~= g.map_values(f) + to_standard_b64(er));
        assert(to_standard_b64(e) =~= b64_padded(d));
    }
}

proof fn lemma_groups_shift(p: Seq<u8>, r: Seq<u8>, j: int)
    requires
        0 <= j,
    ensures
        b64_groups_from(p + r, p.len() + j) == b64_groups_from(r, j),
    decreases r.len() - j,
{
    let b = p + r;
    let i = p.len() + j;
    if i + 4 > b.len() {
    } else {
        assert(b[i] == r[j]);
        assert(b[i + 1] == r[j + 1]);
        assert(b[i + 2] == r[j + 2]);
        assert(b[i + 3] == r[j + 3]);
        lemma_groups_shift(p, r, j + 4);
    }
}

proof fn lemma_padded_decodes(d: Seq<u8>)
    ensures
        b64_groups_from(b64_padded(d), 0) == Some(d),
    decreases d.len(),
{
    let b = b64_padded(d);
    if d.len() == 0 {
        assert(d =~= Seq::<u8>::empty());
    } else if d.len() <= 2 {
        let x = d[0] as int;
        lemma_digit_std(x / 4);
        if d.len() == 1 {
            lemma_digit_std((x % 4) * 16);
            assert((x / 4) * 4 + ((x % 4) * 16) / 16 == x);
            assert(b64_groups_from(b, 4) == Some(Seq::<u8>::empty()));
            assert(seq![d[0]] + Seq::<u8>::empty() =~= d);
        } else {
            let y = d[1] as int;
            lemma_digit_std((x % 4) * 16 + y / 16);
            lemma_digit_std((y % 16) * 4);
            assert((x / 4) * 4 + ((x % 4) * 16 + y / 16) / 16 == x);
            assert((((x % 4) * 16 + y / 16) % 16) * 16 + ((y % 16) * 4) / 4 == y);
            assert(b64_groups_from(b, 4) == Some(Seq::<u8>::empty()));
            assert(seq![d[0], d[1]] + Seq::<u8>::empty() =~= d);
        }
    } else {
        let x = d[0] as int;
        let y = d[1] as int;
        let z = d[2] as int;
        let r = d.skip(3);
        lemma_padded_decodes(r);
        let g = seq![
            b64_digit(x / 4),
            b64_digit((x % 4) * 16 + y / 16),
            b64_digit((y % 16) * 4 + z / 64),
            b64_digit(z % 64),
        ];
        lemma_digit_std(x / 4);
        lemma_digit_std((x % 4) * 16 + y / 16);
        lemma_digit_std((y % 16) * 4 + z / 64);
        lemma_digit_std(z % 64);
        assert((x / 4) * 4 + ((x % 4) * 16 + y / 16) / 16 == x);
        assert((((x % 4) * 16 + y / 16) % 16) * 16 + ((y % 16) * 4 + z / 64) / 4 == y);
        assert((((y % 16) * 4 + z / 64) % 4) * 64 + z % 64 == z);
        assert(b == g + b64_padded(r));
        lemma_groups_shift(g, b64_padded(r), 0);
        assert(b64_group(b[0], b[1], b[2], b[3]) == Some(seq![d[0], d[1], d[2]]));
        assert(seq![d[0], d[1], d[2]] + r =~= d);
    }
}

/// Decoding gives back what was encoded: the URL-safe base64 of any bytes decodes to them.
pub proof fn lemma_base64_url_round_trip(data: Seq<u8>)
    ensures
        b64url_decoded(b64url_encoded(data)) == Some(data),
{
    lemma_std_of_encoded(data);
    lemma_padded_decodes(data);
}

/// URL-safe base64 decoding (padding optional), as JWT segments use it.
pub fn base64_url_decode(s: &str) -> (r: Option<Vec<u8>>)
    ensures
        r matches Some(v) ==> b64url_decoded(vstd::utf8::encode_utf8(s@)) == Some(v@),
        r is None ==> b64url_decoded(vstd::utf8::encode_utf8(s@)) is None,
{
    let raw = s.as_bytes();
    let ghost src = vstd::utf8::encode_utf8(s@);
    assert(raw@ == src);
    let mut b: Vec<u8> = Vec::new();
    let mut i: usize = 0;
    while i < raw.len()
        invariant
            i <= raw@.len(),
            b@ == raw@.take(i as int).map_values(|x: u8| if x == 45 { 43u8 } else if x == 95 { 47u8 } else { x }),
        decreases raw.len() - i,
    {
        let x = raw[i];
        let y: u8 = if x == 45 { 43 } else if x == 95 { 47 } else { x };
        b.push(y);
        assert(raw@.take(i + 1).map_values(|x: u8| if x == 45 { 43u8 } else if x == 95 { 47u8 } else { x })
            =~= raw@.take(i as int).map_values(|x: u8| if x == 45 { 43u8 } else if x == 95 { 47u8 } else { x }).push(y));
        i += 1;
    }
    assert(raw@.take(raw@.len() as int) =~= raw@);
    let ghost mapped = b@;
    let pad: usize = (4 - raw.len() % 4) % 4;
    let mut k: usize = 0;
    while k < pad
        invariant
            pad == (4 - raw@.len() % 4) % 4,
            k <= pad,
            b@ == mapped + Seq::new(k as nat, |j: int| 61u8),
            mapped.len() == raw@.len(),
        decreases pad - k,
    {
        b.push(61);
        assert(mapped + Seq::new((k + 1) as nat, |j: int| 61u8) =~= (mapped + Seq::new(k as nat, |j: int| 61u8)).push(61));
        k += 1;
    }
    assert(b@ == to_standard_b64(src));
    assert(b@.len() % 4 == 0);
    let mut out: Vec<u8> = Vec::new();
    let mut p: usize = 0;
    while p < b.len()
        invariant
            src == vstd::utf8::encode_utf8(s@),
            b@ == to_standard_b64(src),
            b@.len() % 4 == 0,
            p % 4 == 0,
            p <= b@.len(),
            b64url_decoded(src) == match b64_groups_from(b@, p as int) {
                Some(rest) => Some(out@ + rest),
                None => None::<Seq<u8>>,
            },
        decreases b.len() - p,
    {
        assert(p + 4 <= b@.len()) by (nonlinear_arith)
            requires p % 4 == 0, b@.len() % 4 == 0, p < b@.len();
        if b[p] == 61 {
            assert(b64_groups_from(b@, p as int) == Some(Seq::<u8>::empty()));
            assert(out@ + Seq::<u8>::empty() =~= out@);
            return Some(out);
        }
        let ghost before = out@;
        if !b64_group_exec(b[p], b[p + 1], b[p + 2], b[p + 3], &mut out) {
            assert(b64_groups_from(b@, p as int) is None);
            return None;
        }
        proof {
            let g = b64_group(b@[p as int], b@[p + 1], b@[p + 2], b@[p + 3])->Some_0;
            match b64_groups_from(b@, p + 4) {
                Some(rest) => {
                    assert(before + (g + rest) =~= out@ + rest);
                },
                None => {},
            }
        }
        p += 4;
    }
    proof {
        assert(b64_groups_from(b@, p as int) == Some(Seq::<u8>::empty()));
        assert(out@ + Seq::<u8>::empty() =~= out@);
    }
    Some(out)
}

} // verus!

verus! {

/// The unsigned integer member `key` of the JSON object in `bytes`, as `serde_json` reads
/// it (`None` when the bytes are not JSON, or the member is missing or not a `u64`).
pub uninterp spec fn json_u64_member(bytes: Seq<u8>, key: Seq<char>) -> Option<u64>;

/// `serde_json::from_slice::<Value>`, then `Value::get(key)` and `Value::as_u64`. Claims
/// only that the result is [`json_u64_member`] of the arguments.
#[verifier::external_body]
fn json_u64_field(bytes: &[u8], key: &str) -> (r: Option<u64>)
    ensures
        r == json_u64_member(bytes@, key@),
{
    let v: serde_json::Value = match serde_json::from_slice(bytes) {
        Ok(v) => v,
        Err(_) => return None,
    };
    match v.get(key) {
        Some(x) => x.as_u64(),
        None => None,
    }
}

/// The `exp` claim of a JWT: exactly three `.`-separated parts, the middle one URL-safe
/// base64 JSON with a numeric `exp`.
pub open spec fn jwt_exp_of(token: Seq<char>) -> Option<u64> {
    let parts = crate::text::split(token, '.');
    if parts.len() != 3 {
        None
    } else {
        match b64url_decoded(vstd::utf8::encode_utf8(parts[1])) {
            Some(payload) => json_u64_member(payload, "exp"@),
            None => None,
        }
    }
}

/// The JWT `exp` claim (seconds since the epoch); `None` for a token that is not a JWT.
pub fn jwt_exp(token: &str) -> (r: Option<u64>)
    ensures
        r == jwt_exp_of(token@),
{
    let v = chars_of(token);
    let parts = crate::text::split_chars(&v, '.');
    if parts.len() != 3 {
        return None;
    }
    let payload = string_from(&parts[1]);
    match base64_url_decode(payload.as_str()) {
        Some(bytes) => json_u64_field(&bytes, "exp"),
        None => None,
    }
}

/// A token is due for refresh when its JWT expiry is within the refresh margin of `now`;
/// a token without a readable expiry is not (a rejected request forces a refresh instead).
pub open spec fn needs_refresh(token: Seq<char>, now: u64) -> bool {
    match jwt_exp_of(token) {
        Some(exp) => now + REFRESH_SKEW_SECS >= exp,
        None => false,
    }
}

pub fn access_token_needs_refresh(access_token: &str, now: u64) -> (b: bool)
    ensures
        b == needs_refresh(access_token@, now),
{
    match jwt_exp(access_token) {
        Some(exp) => (now as u128) + (REFRESH_SKEW_SECS as u128) >= exp as u128,
        None => false,
    }
}

/// Number of `c` in `s`.
pub open spec fn count_char(s: Seq<char>, c: char) -> nat
    decreases s.len(),
{
    if s.len() == 0 {
        0
    } else {
        count_char(s.drop_last(), c) + if s.last() == c { 1nat } else { 0nat }
    }
}

/// A bearer that looks like a sign-in JWT, not an `xai-…` API key: non-empty, not starting
/// with `xai-`, with exactly two `.`.
pub open spec fn oauth_bearer_shape(token: Seq<char>) -> bool {
    token.len() > 0 && !starts_with(token, "xai-"@) && count_char(token, '.') == 2
}

pub fn looks_like_oauth_bearer(token: &str) -> (b: bool)
    ensures
        b == oauth_bearer_shape(token@),
{
    let v = chars_of(token);
    let mut n: usize = 0;
    let mut i: usize = 0;
    while i < v.len()
        invariant
            i <= v@.len(),
            n == count_char(v@.take(i as int), '.'),
            n <= i,
        decreases v.len() - i,
    {
        assert(v@.take(i + 1).drop_last() =~= v@.take(i as int));
        if v[i] == '.' {
            n += 1;
        }
        i += 1;
    }
    assert(v@.take(v@.len() as int) =~= v@);
    v.len() > 0 && !starts_with_chars(&v, "xai-") && n == 2
}

/// The expiry a token is cached with: its JWT expiry, else an hour after `now` (saturating).
pub open spec fn cached_expiry(access: Seq<char>, now: u64) -> u64 {
    match jwt_exp_of(access) {
        Some(e) => e,
        None => if now as int + 3600 <= u64::MAX { (now + 3600) as u64 } else { u64::MAX },
    }
}

/// What the cache hands out at `now`: the token while `now` is outside the refresh margin
/// of its expiry.
pub open spec fn fresh_entry(entry: Option<(Seq<char>, u64)>, now: u64) -> Option<Seq<char>> {
    match entry {
        Some(e) => if now + REFRESH_SKEW_SECS >= e.1 { None } else { Some(e.0) },
        None => None,
    }
}

/// The in-process access-token cache: the token and its expiry.
#[derive(Debug, Clone)]
pub struct TokenCache {
    entry: Option<(String, u64)>,
}

impl TokenCache {
    pub closed spec fn view_entry(&self) -> Option<(Seq<char>, u64)> {
        match self.entry {
            Some(e) => Some((e.0@, e.1)),
            None => None,
        }
    }

    pub fn new() -> (c: TokenCache)
        ensures
            c.view_entry() is None,
    {
        TokenCache { entry: None }
    }

    /// Caches `access` with [`cached_expiry`].
    pub fn cache_put(&mut self, access: &str, now: u64)
        ensures
            final(self).view_entry() == Some((access@, cached_expiry(access@, now))),
    {
        let exp = match jwt_exp(access) {
            Some(e) => e,
            None => now.saturating_add(3600),
        };
        self.entry = Some((String::from_str(access), exp));
    }

    /// The cached token while it is fresh at `now` (see [`fresh_entry`]).
    pub fn cache_get_if_fresh(&self, now: u64) -> (r: Option<String>)
        ensures
            match fresh_entry(self.view_entry(), now) {
                Some(t) => r matches Some(s) && s@ == t,
                None => r is None,
            },
    {
        match &self.entry {
            Some(e) => {
                if (now as u128) + (REFRESH_SKEW_SECS as u128) >= e.1 as u128 {
                    None
                } else {
                    Some(e.0.clone())
                }
            },
            None => None,
        }
    }

    /// Forgets the cached token (sign-out).
    pub fn clear(&mut self)
        ensures
            final(self).view_entry() is None,
    {
        self.entry = None;
    }
}

/// A token cached at time `now` is served from the cache at `now` exactly when it is a JWT
/// whose expiry is more than the refresh margin after `now`: a token without a readable
/// expiry is never served from the cache.
pub proof fn lemma_cache_put_then_get(access: Seq<char>, now: u64)
    ensures
        fresh_entry(Some((access, cached_expiry(access, now))), now) == (match jwt_exp_of(access) {
            Some(e) => if now + REFRESH_SKEW_SECS < e { Some(access) } else { None },
            None => None,
        }),
{
}

} // verus!

verus! {

/// The scheme and host of `url` as `url::Url::parse` (re-exported by `reqwest`) reads them;
/// `None` when it does not parse.
pub uninterp spec fn url_scheme_host(url: Seq<char>) -> Option<(Seq<char>, Option<Seq<char>>)>;

pub open spec fn opt_string_view(v: Option<String>) -> Option<Seq<char>> {
    match v {
        Some(s) => Some(s@),
        None => None,
    }
}

/// `reqwest::Url::parse`, then `Url::scheme` and `Url::host_str`. Claims only that the
/// result is [`url_scheme_host`] of the text.
#[verifier::external_body]
fn parse_url_scheme_host(url: &str) -> (r: Option<(String, Option<String>)>)
    ensures
        r matches Some(p) ==> url_scheme_host(url@) == Some((p.0@, opt_string_view(p.1))),
        r is None ==> url_scheme_host(url@) is None,
{
    match reqwest::Url::parse(url) {
        Ok(u) => Some((u.scheme().to_string(), u.host_str().map(|h| h.to_string()))),
        Err(_) => None,
    }
}

/// Issuer URL check: non-empty after trimming, parses, `https`, and on `auth.x.ai` or
/// `accounts.x.ai` (refresh tokens are never sent anywhere else). The error names `field`.
pub open spec fn xai_url_check(url: Seq<char>, field: Seq<char>) -> Result<(), Seq<char>> {
    let u = trim(url);
    if u.len() == 0 {
        Err(field + " is empty"@)
    } else {
        match url_scheme_host(u) {
            None => Err("invalid "@ + field),
            Some(p) => if p.0 != "https"@ {
                Err(field + " must be https"@)
            } else {
                let host = match p.1 {
                    Some(h) => h,
                    None => seq![],
                };
                if host != "auth.x.ai"@ && host != "accounts.x.ai"@ {
                    Err(field + " host must be auth.x.ai or accounts.x.ai (got "@ + host + ")"@)
                } else {
                    Ok(())
                }
            },
        }
    }
}

pub fn validate_xai_url(url: &str, field: &str) -> (r: Result<(), String>)
    ensures
        match r {
            Ok(()) => xai_url_check(url@, field@) is Ok,
            Err(e) => xai_url_check(url@, field@) == Err::<(), Seq<char>>(e@),
        },
{
    let u = crate::keyring::trimmed(url);
    if u.as_str().is_empty() {
        let mut m = String::from_str(field);
        push_str(&mut m, " is empty");
        return Err(m);
    }
    let (scheme, host) = match parse_url_scheme_host(u.as_str()) {
        Some(p) => p,
        None => {
            let mut m = String::from_str("invalid ");
            push_str(&mut m, field);
            return Err(m);
        },
    };
    if !str_eq(scheme.as_str(), "https") {
        let mut m = String::from_str(field);
        push_str(&mut m, " must be https");
        return Err(m);
    }
    let h = match host {
        Some(h) => h,
        None => String::new(),
    };
    if !str_eq(h.as_str(), "auth.x.ai") && !str_eq(h.as_str(), "accounts.x.ai") {
        let mut m = String::from_str(field);
        push_str(&mut m, " host must be auth.x.ai or accounts.x.ai (got ");
        push_str(&mut m, h.as_str());
        push_str(&mut m, ")");
        return Err(m);
    }
    Ok(())
}

/// Auth mode for status and settings, in the order the bearer is resolved for display:
/// an environment key, then a sign-in session, then a stored key file.
pub open spec fn auth_label(api_key_env: Option<Seq<char>>, xai_key_env: Option<Seq<char>>, logged_in: bool, stored_key: bool) -> Seq<char> {
    if crate::keyring::set_env(api_key_env) || crate::keyring::set_env(xai_key_env) {
        "api_key_env"@
    } else if logged_in {
        "oauth"@
    } else if stored_key {
        "api_key"@
    } else {
        "none"@
    }
}

pub fn auth_status_label(api_key_env: Option<&str>, xai_key_env: Option<&str>, logged_in: bool, stored_key: bool) -> (s: &'static str)
    ensures
        s@ == auth_label(crate::keyring::opt_view(api_key_env), crate::keyring::opt_view(xai_key_env), logged_in, stored_key),
{
    let env_key = match api_key_env {
        Some(k) => !k.is_empty(),
        None => false,
    } || match xai_key_env {
        Some(k) => !k.is_empty(),
        None => false,
    };
    if env_key {
        "api_key_env"
    } else if logged_in {
        "oauth"
    } else if stored_key {
        "api_key"
    } else {
        "none"
    }
}

/// The sign-in session file in the data directory.
pub fn store_path(data_dir: &str) -> (p: String)
    ensures
        p@ == crate::paths::join_path(data_dir@, "xai-oauth.json"@),
{
    crate::paths::join_path_str(data_dir, "xai-oauth.json")
}

/// The session file's JSON: decrypted when it looks encrypted, else taken as it is.
pub fn store_plaintext(machine_id: &[u8], data: &[u8]) -> (r: Result<Vec<u8>, crate::crypto::KeyringError>)
    ensures
        crate::crypto::looks_encrypted_spec(data@) ==> match r {
            Ok(p) => crate::crypto::decryption(machine_id@, data@) == Ok::<Seq<u8>, crate::crypto::KeyringError>(p@),
            Err(e) => crate::crypto::decryption(machine_id@, data@) == Err::<Seq<u8>, crate::crypto::KeyringError>(e),
        },
        !crate::crypto::looks_encrypted_spec(data@) ==> (r matches Ok(p) && p@ == data@),
{
    if crate::crypto::looks_encrypted(data) {
        crate::crypto::decrypt_bytes(machine_id, data)
    } else {
        Ok(crate::crypto::bytes_slice(data, 0, data.len()))
    }
}

/// A stored session counts only with both an access and a refresh token.
pub fn is_logged_in(session: Option<(&str, &str)>) -> (b: bool)
    ensures
        b == match session {
            Some(t) => t.0@.len() > 0 && t.1@.len() > 0,
            None => false,
        },
{
    match session {
        Some((access, refresh)) => !access.is_empty() && !refresh.is_empty(),
        None => false,
    }
}

} // verus!

verus! {

/// What `access_token` does next: hand out the cached token, report that nobody is signed
/// in, hand out the stored access token, or refresh it first.
#[derive(Debug, Clone, PartialEq, Eq)]
pub enum TokenPlan {
    Cached(String),
    NoSession,
    Stored(String),
    Refresh,
}

/// The plan given the fresh cached token (if any), the stored session's access token (if
/// signed in) and the time.
pub fn access_token_plan(cached: Option<String>, session_access: Option<&str>, now: u64) -> (p: TokenPlan)
    ensures
        cached matches Some(t) ==> p == TokenPlan::Cached(t),
        cached is None ==> match session_access {
            Some(a) => if needs_refresh(a@, now) {
                p == TokenPlan::Refresh
            } else {
                p matches TokenPlan::Stored(s) && s@ == a@
            },
            None => p == TokenPlan::NoSession,
        },
{
    if let Some(t) = cached {
        return TokenPlan::Cached(t);
    }
    match session_access {
        None => TokenPlan::NoSession,
        Some(a) => {
            if access_token_needs_refresh(a, now) {
                TokenPlan::Refresh
            } else {
                TokenPlan::Stored(String::from_str(a))
            }
        },
    }
}

/// Under the refresh lock: another task already refreshed when the stored access token
/// changed and is not due for refresh itself.
pub fn refreshed_meanwhile(stored_access: &str, stale_access: &str, now: u64) -> (b: bool)
    ensures
        b == (stored_access@ != stale_access@ && !needs_refresh(stored_access@, now)),
{
    !str_eq(stored_access, stale_access) && !access_token_needs_refresh(stored_access, now)
}

/// Why a refresh request failed, from its HTTP status code, status text and body: `None`
/// for a success (2xx).
pub open spec fn refresh_error(status: u16, status_text: Seq<char>, body: Seq<char>) -> Option<Seq<char>> {
    if status == 403 {
        Some("xAI OAuth refresh HTTP 403 — this account may not allow speech access via sign-in. Use an API key (`--set-key`) or a SuperGrok / X Premium+ plan. Detail: "@ + body)
    } else if !(200 <= status <= 299) {
        if contains(body, "invalid_grant"@) {
            Some("xAI OAuth refresh failed (invalid_grant) — re-run `cosmic-scribe --login`. "@ + body)
        } else {
            Some("xAI OAuth refresh HTTP "@ + status_text + ": "@ + body)
        }
    } else {
        None
    }
}

pub fn refresh_failure(status: u16, status_text: &str, body: &str) -> (r: Option<String>)
    ensures
        r matches Some(m) ==> refresh_error(status, status_text@, body@) == Some(m@),
        r is None ==> refresh_error(status, status_text@, body@) is None,
{
    if status == 403 {
        let mut m = String::from_str("xAI OAuth refresh HTTP 403 — this account may not allow speech access via sign-in. Use an API key (`--set-key`) or a SuperGrok / X Premium+ plan. Detail: ");
        push_str(&mut m, body);
        return Some(m);
    }
    if !(200 <= status && status <= 299) {
        let b = chars_of(body);
        if contains_chars(&b, &chars_of("invalid_grant")) {
            let mut m = String::from_str("xAI OAuth refresh failed (invalid_grant) — re-run `cosmic-scribe --login`. ");
            push_str(&mut m, body);
            return Some(m);
        }
        let mut m = String::from_str("xAI OAuth refresh HTTP ");
        push_str(&mut m, status_text);
        push_str(&mut m, ": ");
        push_str(&mut m, body);
        return Some(m);
    }
    None
}

/// The refresh token to keep: the new one when the response has a non-empty one, else the
/// old one.
pub fn next_refresh_token(new_token: Option<&str>, old_token: &str) -> (s: String)
    ensures
        s@ == match new_token {
            Some(t) => if t@.len() > 0 { t@ } else { old_token@ },
            None => old_token@,
        },
{
    match new_token {
        Some(t) => if !t.is_empty() { String::from_str(t) } else { String::from_str(old_token) },
        None => String::from_str(old_token),
    }
}

/// The new access token of a refresh response, which must not be empty.
pub fn refreshed_access_token(access: Option<&str>) -> (r: Result<String, String>)
    ensures
        match access {
            Some(a) => if a@.len() > 0 { r matches Ok(s) && s@ == a@ } else { r matches Err(e) && e@ == "xAI refresh response missing access_token"@ },
            None => r matches Err(e) && e@ == "xAI refresh response missing access_token"@,
        },
{
    match access {
        Some(a) => {
            if !a.is_empty() {
                return Ok(String::from_str(a));
            }
        },
        None => {},
    }
    Err(String::from_str("xAI refresh response missing access_token"))
}

/// The token type of a token response (`Bearer` when missing).
pub fn token_type_or_default(token_type: Option<&str>) -> (s: String)
    ensures
        s@ == match token_type {
            Some(t) => t@,
            None => "Bearer"@,
        },
{
    match token_type {
        Some(t) => String::from_str(t),
        None => String::from_str("Bearer"),
    }
}

/// The tokens a token endpoint issued: access, refresh, id token, lifetime, type.
#[derive(Debug, Clone)]
pub struct IssuedTokens {
    pub access_token: String,
    pub refresh_token: String,
    pub id_token: String,
    pub expires_in: Option<u64>,
    pub token_type: String,
}

/// What a refresh reply body gives, keeping `old_refresh` when it brings no new refresh
/// token: an error when it is not JSON or has no non-empty `access_token`; else the access
/// token, the refresh token, `id_token` (empty without one), `expires_in` and `token_type`
/// (`Bearer` without one).
pub open spec fn refresh_reply(body: Seq<char>, old_refresh: Seq<char>) -> Result<
    (Seq<char>, Seq<char>, Seq<char>, Option<u64>, Seq<char>),
    Seq<char>,
> {
    match crate::json::json_error_text(body) {
        Some(t) => Err("refresh JSON: "@ + t),
        None => {
            let access = crate::api::text_member(body, "access_token"@, ""@);
            if access.len() == 0 {
                Err("xAI refresh response missing access_token"@)
            } else {
                let refresh = crate::api::text_member(body, "refresh_token"@, ""@);
                Ok((
                    access,
                    if refresh.len() > 0 { refresh } else { old_refresh },
                    crate::api::text_member(body, "id_token"@, ""@),
                    json_u64_member(vstd::utf8::encode_utf8(body), "expires_in"@),
                    crate::api::text_member(body, "token_type"@, "Bearer"@),
                ))
            }
        },
    }
}

/// Reads a refresh reply body (see [`refresh_reply`]).
pub fn refreshed_tokens(body: &str, old_refresh: &str) -> (r: Result<IssuedTokens, String>)
    ensures
        match refresh_reply(body@, old_refresh@) {
            Ok(t) => r matches Ok(x) && (x.access_token@, x.refresh_token@, x.id_token@, x.expires_in, x.token_type@) == t,
            Err(e) => r matches Err(x) && x@ == e,
        },
{
    let keys: [&str; 4] = ["access_token", "refresh_token", "id_token", "token_type"];
    proof {
        reveal_strlit("access_token");
        reveal_strlit("refresh_token");
        reveal_strlit("id_token");
        reveal_strlit("token_type");
        reveal_strlit("");
    }
    let f = match crate::json::json_str_fields(body, keys.as_slice()) {
        Ok(f) => f,
        Err(e) => {
            let mut m = String::from_str("refresh JSON: ");
            push_str(&mut m, e.as_str());
            return Err(m);
        },
    };
    assert(f@.len() == 4);
    assert(keys@[0]@ == "access_token"@);
    assert(keys@[1]@ == "refresh_token"@);
    assert(keys@[2]@ == "id_token"@);
    assert(keys@[3]@ == "token_type"@);
    assert(crate::json::opt_string_view(f@[0]) == crate::json::json_str_member(body@, keys@[0]@));
    assert(crate::json::opt_string_view(f@[1]) == crate::json::json_str_member(body@, keys@[1]@));
    assert(crate::json::opt_string_view(f@[2]) == crate::json::json_str_member(body@, keys@[2]@));
    assert(crate::json::opt_string_view(f@[3]) == crate::json::json_str_member(body@, keys@[3]@));
    let access = refreshed_access_token(member_str(&f[0]))?;
    let refresh = next_refresh_token(member_str(&f[1]), old_refresh);
    let id_token = match &f[2] {
        Some(t) => t.clone(),
        None => String::new(),
    };
    let token_type = token_type_or_default(member_str(&f[3]));
    let expires_in = u64_member(body, "expires_in");
    Ok(IssuedTokens { access_token: access, refresh_token: refresh, id_token, expires_in, token_type })
}

/// A device-code token response must carry both tokens.
pub fn device_tokens(access: Option<&str>, refresh: Option<&str>) -> (r: Result<(String, String), String>)
    ensures
        match r {
            Ok(t) => (access matches Some(a) && a@.len() > 0 && t.0@ == a@)
                && (refresh matches Some(f) && f@.len() > 0 && t.1@ == f@),
            Err(e) => e@ == "token response missing access_token or refresh_token"@ && !(
                (access matches Some(a) && a@.len() > 0) && (refresh matches Some(f) && f@.len() > 0)),
        },
{
    proof {
        reveal_strlit("");
    }
    let a = match access {
        Some(a) => a,
        None => "",
    };
    let f = match refresh {
        Some(f) => f,
        None => "",
    };
    if a.is_empty() || f.is_empty() {
        return Err(String::from_str("token response missing access_token or refresh_token"));
    }
    Ok((String::from_str(a), String::from_str(f)))
}

/// Seconds between device-code polls: the server's interval (5 when missing), at least 1.
pub fn poll_interval(interval: Option<u64>) -> (s: u64)
    ensures
        s == match interval {
            Some(i) => if i >= 1 { i } else { 1 },
            None => 5,
        },
{
    match interval {
        Some(i) => if i >= 1 { i } else { 1 },
        None => 5,
    }
}

/// Where the user approves the sign-in: the complete verification URI, else the plain
/// one, else the default device page.
pub fn device_verification_url(complete: Option<&str>, plain: Option<&str>) -> (s: String)
    ensures
        s@ == match complete {
            Some(c) => c@,
            None => match plain {
                Some(p) => p@,
                None => "https://accounts.x.ai/oauth2/device"@,
            },
        },
{
    match complete {
        Some(c) => String::from_str(c),
        None => match plain {
            Some(p) => String::from_str(p),
            None => String::from_str("https://accounts.x.ai/oauth2/device"),
        },
    }
}

/// What to do after an unsuccessful device-code poll.
#[derive(Debug, Clone, PartialEq, Eq)]
pub enum PollStep {
    /// Wait this many seconds, then poll again (with this interval from now on).
    Wait(u64),
    /// Give up with this message.
    Fail(String),
}

/// The next step for a poll answered with OAuth error `code`: keep waiting while approval
/// is pending, wait one second longer (at most 30) when asked to slow down, else fail with
/// the error description (the raw body when there is none).
pub fn device_poll_step(code: &str, description: Option<&str>, body: &str, interval: u64) -> (s: PollStep)
    ensures
        code@ == "authorization_pending"@ ==> s == PollStep::Wait(interval),
        code@ == "slow_down"@ ==> s == PollStep::Wait(if interval as int + 1 <= 30 { (interval + 1) as u64 } else { 30 }),
        code@ != "authorization_pending"@ && code@ != "slow_down"@ ==> (s matches PollStep::Fail(m)
            && m@ == "xAI device authorization failed: "@ + match description {
                Some(d) => d@,
                None => body@,
            }),
{
    proof {
        reveal_strlit("authorization_pending");
        reveal_strlit("slow_down");
        assert("authorization_pending"@.len() != "slow_down"@.len());
    }
    if str_eq(code, "authorization_pending") {
        return PollStep::Wait(interval);
    }
    if str_eq(code, "slow_down") {
        let next: u64 = if interval < 30 { interval + 1 } else { 30 };
        return PollStep::Wait(next);
    }
    let mut m = String::from_str("xAI device authorization failed: ");
    match description {
        Some(d) => push_str(&mut m, d),
        None => push_str(&mut m, body),
    }
    PollStep::Fail(m)
}

/// An optional string member of a reply, as `&str`.
fn member_str(v: &Option<String>) -> (r: Option<&str>)
    ensures
        crate::keyring::opt_view(r) == crate::json::opt_string_view(*v),
{
    match v {
        Some(s) => Some(s.as_str()),
        None => None,
    }
}

fn u64_member(body: &str, key: &str) -> (r: Option<u64>)
    ensures
        r == json_u64_member(vstd::utf8::encode_utf8(body@), key@),
{
    let bytes = body.as_bytes();
    assert(bytes@ == vstd::utf8::encode_utf8(body@));
    json_u64_field(bytes, key)
}

/// The OIDC discovery document's endpoints: an error when it is not JSON, when either
/// endpoint is missing or empty, or when one is not an xAI HTTPS URL; else the
/// authorization and token endpoints.
pub open spec fn discovery_reply(body: Seq<char>) -> Result<(Seq<char>, Seq<char>), Seq<char>> {
    match crate::json::json_error_text(body) {
        Some(t) => Err("xAI OIDC discovery JSON: "@ + t),
        None => {
            let a = crate::api::text_member(body, "authorization_endpoint"@, ""@);
            let t = crate::api::text_member(body, "token_endpoint"@, ""@);
            if a.len() == 0 || t.len() == 0 {
                Err("xAI OIDC discovery missing endpoints"@)
            } else {
                match xai_url_check(a, "authorization_endpoint"@) {
                    Err(e) => Err(e),
                    Ok(_) => match xai_url_check(t, "token_endpoint"@) {
                        Err(e) => Err(e),
                        Ok(_) => Ok((a, t)),
                    },
                }
            }
        },
    }
}

/// Reads the OIDC discovery document (see [`discovery_reply`]).
pub fn discovery_endpoints(body: &str) -> (r: Result<(String, String), String>)
    ensures
        match discovery_reply(body@) {
            Ok(p) => r matches Ok(x) && x.0@ == p.0 && x.1@ == p.1,
            Err(e) => r matches Err(x) && x@ == e,
        },
{
    let keys: [&str; 2] = ["authorization_endpoint", "token_endpoint"];
    proof {
        reveal_strlit("authorization_endpoint");
        reveal_strlit("token_endpoint");
        reveal_strlit("");
    }
    let f = match crate::json::json_str_fields(body, keys.as_slice()) {
        Ok(f) => f,
        Err(e) => {
            let mut m = String::from_str("xAI OIDC discovery JSON: ");
            push_str(&mut m, e.as_str());
            return Err(m);
        },
    };
    assert(f@.len() == 2);
    assert(keys@[0]@ == "authorization_endpoint"@);
    assert(keys@[1]@ == "token_endpoint"@);
    assert(crate::json::opt_string_view(f@[0]) == crate::json::json_str_member(body@, keys@[0]@));
    assert(crate::json::opt_string_view(f@[1]) == crate::json::json_str_member(body@, keys@[1]@));
    let auth_ep = match &f[0] {
        Some(a) => a.clone(),
        None => String::new(),
    };
    let token_ep = match &f[1] {
        Some(t) => t.clone(),
        None => String::new(),
    };
    if auth_ep.as_str().is_empty() || token_ep.as_str().is_empty() {
        return Err(String::from_str("xAI OIDC discovery missing endpoints"));
    }
    validate_xai_url(auth_ep.as_str(), "authorization_endpoint")?;
    validate_xai_url(token_ep.as_str(), "token_endpoint")?;
    Ok((auth_ep, token_ep))
}

/// A device-code grant: the code to poll with, the code to show, where to approve, how long
/// it lasts and how often to poll (seconds).
#[derive(Debug, Clone)]
pub struct DeviceCode {
    pub device_code: String,
    pub user_code: String,
    pub verification: String,
    pub expires_in: u64,
    pub interval: u64,
}

/// The device-code reply: an error when it is not JSON or has no `device_code`; else the
/// codes (`?` for a missing user code), the verification URL (complete, else plain, else
/// the default device page), the lifetime (1800 s without one) and the poll interval.
pub open spec fn device_code_reply(body: Seq<char>) -> Result<
    (Seq<char>, Seq<char>, Seq<char>, u64, u64),
    Seq<char>,
> {
    match crate::json::json_error_text(body) {
        Some(t) => Err("device-code JSON: "@ + t),
        None => match crate::json::json_str_member(body, "device_code"@) {
            None => Err("missing device_code"@),
            Some(code) => Ok((
                code,
                crate::api::text_member(body, "user_code"@, "?"@),
                match crate::json::json_str_member(body, "verification_uri_complete"@) {
                    Some(c) => c,
                    None => crate::api::text_member(body, "verification_uri"@, "https://accounts.x.ai/oauth2/device"@),
                },
                match json_u64_member(vstd::utf8::encode_utf8(body), "expires_in"@) {
                    Some(e) => e,
                    None => 1800,
                },
                match json_u64_member(vstd::utf8::encode_utf8(body), "interval"@) {
                    Some(i) => if i >= 1 { i } else { 1 },
                    None => 5,
                },
            )),
        },
    }
}

/// Reads the device-code reply (see [`device_code_reply`]).
pub fn device_code_from_reply(body: &str) -> (r: Result<DeviceCode, String>)
    ensures
        match device_code_reply(body@) {
            Ok(d) => r matches Ok(x) && (x.device_code@, x.user_code@, x.verification@, x.expires_in, x.interval) == d,
            Err(e) => r matches Err(x) && x@ == e,
        },
{
    let keys: [&str; 4] = ["device_code", "user_code", "verification_uri_complete", "verification_uri"];
    proof {
        reveal_strlit("device_code");
        reveal_strlit("user_code");
        reveal_strlit("verification_uri_complete");
        reveal_strlit("verification_uri");
    }
    let f = match crate::json::json_str_fields(body, keys.as_slice()) {
        Ok(f) => f,
        Err(e) => {
            let mut m = String::from_str("device-code JSON: ");
            push_str(&mut m, e.as_str());
            return Err(m);
        },
    };
    assert(f@.len() == 4);
    assert(keys@[0]@ == "device_code"@);
    assert(keys@[1]@ == "user_code"@);
    assert(keys@[2]@ == "verification_uri_complete"@);
    assert(keys@[3]@ == "verification_uri"@);
    assert(crate::json::opt_string_view(f@[0]) == crate::json::json_str_member(body@, keys@[0]@));
    assert(crate::json::opt_string_view(f@[1]) == crate::json::json_str_member(body@, keys@[1]@));
    assert(crate::json::opt_string_view(f@[2]) == crate::json::json_str_member(body@, keys@[2]@));
    assert(crate::json::opt_string_view(f@[3]) == crate::json::json_str_member(body@, keys@[3]@));
    let device_code = match &f[0] {
        Some(c) => c.clone(),
        None => return Err(String::from_str("missing device_code")),
    };
    let user_code = match &f[1] {
        Some(c) => c.clone(),
        None => String::from_str("?"),
    };
    let verification = device_verification_url(member_str(&f[2]), member_str(&f[3]));
    let expires_in = match u64_member(body, "expires_in") {
        Some(e) => e,
        None => 1800,
    };
    let interval = poll_interval(u64_member(body, "interval"));
    Ok(DeviceCode { device_code, user_code, verification, expires_in, interval })
}

/// The token reply that ends a device-code sign-in: an error when it is not JSON or lacks a
/// non-empty access or refresh token; else the tokens, `id_token` (empty without one),
/// `expires_in` and `token_type` (`Bearer` without one).
pub open spec fn device_token_reply(body: Seq<char>) -> Result<
    (Seq<char>, Seq<char>, Seq<char>, Option<u64>, Seq<char>),
    Seq<char>,
> {
    match crate::json::json_error_text(body) {
        Some(t) => Err("token JSON: "@ + t),
        None => {
            let a = crate::api::text_member(body, "access_token"@, ""@);
            let f = crate::api::text_member(body, "refresh_token"@, ""@);
            if a.len() == 0 || f.len() == 0 {
                Err("token response missing access_token or refresh_token"@)
            } else {
                Ok((
                    a,
                    f,
                    crate::api::text_member(body, "id_token"@, ""@),
                    json_u64_member(vstd::utf8::encode_utf8(body), "expires_in"@),
                    crate::api::text_member(body, "token_type"@, "Bearer"@),
                ))
            }
        },
    }
}

/// Reads the token reply of a device-code sign-in (see [`device_token_reply`]).
pub fn device_tokens_from_reply(body: &str) -> (r: Result<IssuedTokens, String>)
    ensures
        match device_token_reply(body@) {
            Ok(t) => r matches Ok(x) && (x.access_token@, x.refresh_token@, x.id_token@, x.expires_in, x.token_type@) == t,
            Err(e) => r matches Err(x) && x@ == e,
        },
{
    let keys: [&str; 4] = ["access_token", "refresh_token", "id_token", "token_type"];
    proof {
        reveal_strlit("access_token");
        reveal_strlit("refresh_token");
        reveal_strlit("id_token");
        reveal_strlit("token_type");
        reveal_strlit("");
    }
    let f = match crate::json::json_str_fields(body, keys.as_slice()) {
        Ok(f) => f,
        Err(e) => {
            let mut m = String::from_str("token JSON: ");
            push_str(&mut m, e.as_str());
            return Err(m);
        },
    };
    assert(f@.len() == 4);
    assert(keys@[0]@ == "access_token"@);
    assert(keys@[1]@ == "refresh_token"@);
    assert(keys@[2]@ == "id_token"@);
    assert(keys@[3]@ == "token_type"@);
    assert(crate::json::opt_string_view(f@[0]) == crate::json::json_str_member(body@, keys@[0]@));
    assert(crate::json::opt_string_view(f@[1]) == crate::json::json_str_member(body@, keys@[1]@));
    assert(crate::json::opt_string_view(f@[2]) == crate::json::json_str_member(body@, keys@[2]@));
    assert(crate::json::opt_string_view(f@[3]) == crate::json::json_str_member(body@, keys@[3]@));
    let (access_token, refresh_token) = device_tokens(member_str(&f[0]), member_str(&f[1]))?;
    let id_token = match &f[2] {
        Some(t) => t.clone(),
        None => String::new(),
    };
    let token_type = token_type_or_default(member_str(&f[3]));
    let expires_in = u64_member(body, "expires_in");
    Ok(IssuedTokens { access_token, refresh_token, id_token, expires_in, token_type })
}

/// The OAuth error of an unsuccessful poll reply: its `error` code (empty without one, or
/// when the body is not JSON) and its `error_description`.
pub fn poll_error_fields(body: &str) -> (r: (String, Option<String>))
    ensures
        crate::json::json_error_text(body@) is Some ==> r.0@.len() == 0 && r.1 is None,
        crate::json::json_error_text(body@) is None ==> r.0@ == crate::api::text_member(body@, "error"@, ""@)
            && crate::json::opt_string_view(r.1) == crate::json::json_str_member(body@, "error_description"@),
{
    let keys: [&str; 2] = ["error", "error_description"];
    proof {
        reveal_strlit("error");
        reveal_strlit("error_description");
        reveal_strlit("");
    }
    match crate::json::json_str_fields(body, keys.as_slice()) {
        Ok(f) => {
            assert(f@.len() == 2);
            assert(keys@[0]@ == "error"@);
            assert(keys@[1]@ == "error_description"@);
            assert(crate::json::opt_string_view(f@[0]) == crate::json::json_str_member(body@, keys@[0]@));
            assert(crate::json::opt_string_view(f@[1]) == crate::json::json_str_member(body@, keys@[1]@));
            let code = match &f[0] {
                Some(c) => c.clone(),
                None => String::new(),
            };
            (code, f[1].clone())
        },
        Err(_) => (String::new(), None),
    }
}

} // verus!
