//! The quota probe's response: its status and its rate-limit headers.
use vstd::prelude::*;
use crate::err::{DrlErr, DrlResult, ExitCode};

verus! {

/// The current state of the rate limit.
#[derive(Debug, Default, Copy, Clone, PartialEq, Eq, Structural)]
pub struct Limit {
    /// Number of remaining requests of the rate limit, out of `total`
    pub remaining: u64,
    /// Total number of possible requests for the rate limit
    pub total: u64,
}

/// One response header: its name, in lower case, and its raw value.
#[derive(Debug, Clone)]
pub struct Header {
    pub name: Vec<u8>,
    pub value: Vec<u8>,
}

pub const STATUS_OK: u16 = 200;
pub const STATUS_TOO_MANY_REQUESTS: u16 = 429;

/// The value of the first header named `key`, looking from index `i` on.
pub open spec fn lookup_from(hs: Seq<Header>, key: Seq<u8>, i: int) -> Option<Seq<u8>>
    decreases hs.len() - i,
{
    if i < 0 || i >= hs.len() {
        None
    } else if hs[i].name@ == key {
        Some(hs[i].value@)
    } else {
        lookup_from(hs, key, i + 1)
    }
}

/// The value of the first header named `key`.
pub open spec fn lookup(hs: Seq<Header>, key: Seq<u8>) -> Option<Seq<u8>> {
    lookup_from(hs, key, 0)
}

/// Whether a header value is text: visible ASCII or tab only.
pub open spec fn is_visible_ascii(s: Seq<u8>) -> bool {
    forall|i: int| 0 <= i < s.len() ==> ((32 <= #[trigger] s[i] && s[i] < 127) || s[i] == 9)
}

/// Index of the first `;` at or after `i`, or the length.
pub open spec fn semi_from(s: Seq<u8>, i: int) -> int
    decreases s.len() - i,
{
    if i < 0 || i >= s.len() {
        s.len() as int
    } else if s[i] == 59u8 {
        i
    } else {
        semi_from(s, i + 1)
    }
}

/// The part of a header value before its first `;`.
pub open spec fn quota_prefix(s: Seq<u8>) -> Seq<u8> {
    s.take(semi_from(s, 0))
}

pub open spec fn is_digit(b: u8) -> bool {
    48 <= b && b <= 57
}

pub open spec fn digit_value(b: u8) -> nat {
    if b >= 48 { (b - 48) as nat } else { 0 }
}

/// The number that a string of decimal digits writes.
pub open spec fn digits_value(s: Seq<u8>) -> nat
    decreases s.len(),
{
    if s.len() == 0 {
        0
    } else {
        digits_value(s.drop_last()) * 10 + digit_value(s.last())
    }
}

/// The digits of an unsigned integer literal, without its optional `+`.
pub open spec fn unsigned_digits(s: Seq<u8>) -> Seq<u8> {
    if s.len() > 0 && s[0] == 43u8 {
        s.drop_first()
    } else {
        s
    }
}

/// The `u64` that `s` writes in decimal (an optional `+`, then at least one
/// digit), if it fits.
pub open spec fn parse_u64(s: Seq<u8>) -> Option<u64> {
    let d = unsigned_digits(s);
    if d.len() > 0 && (forall|i: int| 0 <= i < d.len() ==> is_digit(#[trigger] d[i]))
        && digits_value(d) <= u64::MAX {
        Some(digits_value(d) as u64)
    } else {
        None
    }
}

/// The quota that a raw header value carries: the number before its first `;`.
pub open spec fn header_quota(v: Seq<u8>) -> Option<u64> {
    if is_visible_ascii(v) {
        parse_u64(quota_prefix(v))
    } else {
        None
    }
}

/// The quota under header `key`, if the header is there and readable.
pub open spec fn header_in(hs: Seq<Header>, key: Seq<u8>) -> Option<u64> {
    match lookup(hs, key) {
        Some(v) => header_quota(v),
        None => None,
    }
}

pub open spec fn limit_key() -> Seq<u8> {
    seq![114u8, 97, 116, 101, 108, 105, 109, 105, 116, 45, 108, 105, 109, 105, 116]
}

pub open spec fn remaining_key() -> Seq<u8> {
    seq![114u8, 97, 116, 101, 108, 105, 109, 105, 116, 45, 114, 101, 109, 97, 105, 110, 105, 110, 103]
}

/// What a probe response means: the kind of error, or the limit.
pub open spec fn probe_outcome(status: u16, hs: Seq<Header>) -> Result<Limit, ExitCode> {
    if status == STATUS_TOO_MANY_REQUESTS {
        Err(ExitCode::OverLimit)
    } else if status != STATUS_OK {
        Err(ExitCode::Connection)
    } else {
        match (header_in(hs, limit_key()), header_in(hs, remaining_key())) {
            (Some(total), Some(remaining)) => Ok(Limit { remaining, total }),
            _ => Err(ExitCode::Parsing),
        }
    }
}

pub open spec fn dec_char(d: nat) -> char {
    if d == 0 { '0' } else if d == 1 { '1' } else if d == 2 { '2' } else if d == 3 { '3' }
    else if d == 4 { '4' } else if d == 5 { '5' } else if d == 6 { '6' } else if d == 7 { '7' }
    else if d == 8 { '8' } else { '9' }
}

/// The decimal form of `n`, without leading zeros.
pub open spec fn dec_string(n: nat) -> Seq<char>
    decreases n,
{
    if n < 10 {
        seq![dec_char(n)]
    } else {
        dec_string(n / 10) + seq![dec_char(n % 10)]
    }
}

/// The display form of a limit: `remaining/total`.
pub open spec fn limit_text(l: Limit) -> Seq<char> {
    dec_string(l.remaining as nat) + seq!['/'] + dec_string(l.total as nat)
}

fn parse_error() -> (e: DrlErr)
    ensures
        e.code == ExitCode::Parsing,
{
    DrlErr::new("error parsing rate limit".to_owned(), ExitCode::Parsing)
}

/// The message of a `Connection` error for an unexpected status.
pub open spec fn status_message(status: u16) -> Seq<char> {
    "error connecting to docker.io: status "@ + dec_string(status as nat)
}

/// A `Connection` error that names the status the server answered with.
pub fn status_error(status: u16) -> (e: DrlErr)
    ensures
        e.code == ExitCode::Connection,
        e.msg@ == status_message(status),
{
    let mut msg = "error connecting to docker.io: status ".to_owned();
    push_decimal(&mut msg, status as u64);
    DrlErr::new(msg, ExitCode::Connection)
}

fn bytes_eq(a: &Vec<u8>, b: &[u8]) -> (r: bool)
    ensures
        r == (a@ == b@),
{
    if a.len() != b.len() {
        return false;
    }
    let mut i: usize = 0;
    while i < a.len()
        invariant
            a@.len() == b@.len(),
            0 <= i <= a@.len(),
            forall|j: int| 0 <= j < i ==> a@[j] == b@[j],
        decreases a@.len() - i,
    {
        if a[i] != b[i] {
            return false;
        }
        i += 1;
    }
    assert(a@ =~= b@);
    true
}

/// The value of the first header named `key`.
pub fn find_header<'a>(headers: &'a Vec<Header>, key: &[u8]) -> (r: Option<&'a Vec<u8>>)
    ensures
        match r {
            Some(v) => lookup(headers@, key@) == Some(v@),
            None => lookup(headers@, key@) is None,
        },
{
    let mut i: usize = 0;
    while i < headers.len()
        invariant
            0 <= i <= headers@.len(),
            lookup_from(headers@, key@, i as int) == lookup(headers@, key@),
        decreases headers@.len() - i,
    {
        if bytes_eq(&headers[i].name, key) {
            return Some(&headers[i].value);
        }
        i += 1;
    }
    None
}

proof fn lemma_digits_value_prefix(s: Seq<u8>, k: int)
    requires
        0 <= k <= s.len(),
    ensures
        digits_value(s.take(k)) <= digits_value(s),
    decreases s.len(),
{
    if k == s.len() {
        assert(s.take(k) =~= s);
    } else {
        assert(s.drop_last().take(k) =~= s.take(k));
        lemma_digits_value_prefix(s.drop_last(), k);
    }
}

proof fn lemma_non_digit(s: Seq<u8>, k: int)
    requires
        0 <= k < unsigned_digits(s).len(),
        !is_digit(unsigned_digits(s)[k]),
    ensures
        parse_u64(s) is None,
{
}

/// Reads `s[..end]` as an unsigned decimal integer.
fn parse_u64_prefix(s: &Vec<u8>, end: usize) -> (r: Option<u64>)
    requires
        end <= s@.len(),
    ensures
        r == parse_u64(s@.take(end as int)),
{
    let ghost t = s@.take(end as int);
    let mut start: usize = 0;
    if end > 0 && s[0] == 43u8 {
        start = 1;
    }
    let ghost d = unsigned_digits(t);
    assert(d =~= s@.subrange(start as int, end as int));
    if start == end {
        return None;
    }
    let mut acc: u64 = 0;
    let mut i: usize = start;
    assert(s@.subrange(start as int, start as int) =~= Seq::<u8>::empty());
    while i < end
        invariant
            start <= i <= end,
            start < end,
            end <= s@.len(),
            d == s@.subrange(start as int, end as int),
            t == s@.take(end as int),
            d == unsigned_digits(t),
            forall|j: int| start <= j < i ==> is_digit(#[trigger] s@[j]),
            acc as nat == digits_value(s@.subrange(start as int, i as int)),
        decreases end - i,
    {
        let b = s[i];
        if b < 48u8 || b > 57u8 {
            assert(d[i - start] == s@[i as int]);
            assert(!is_digit(d[i - start]));
            assert(0 <= i - start < d.len());
            proof {
                lemma_non_digit(t, i - start);
            }
            return None;
        }
        let dgt: u64 = (b - 48u8) as u64;
        let ghost next = s@.subrange(start as int, i + 1);
        assert(next.drop_last() =~= s@.subrange(start as int, i as int));
        assert(next.last() == b);
        assert(digits_value(next) == acc * 10 + dgt);
        if acc > (u64::MAX - dgt) / 10 {
            assert(acc * 10 + dgt > u64::MAX) by (nonlinear_arith)
                requires
                    acc > (u64::MAX - dgt) / 10,
                    dgt <= 9,
            ;
            assert(d.take(i + 1 - start) =~= next);
            proof {
                lemma_digits_value_prefix(d, i + 1 - start);
            }
            assert(digits_value(d) > u64::MAX);
            assert(parse_u64(t) is None);
            return None;
        }
        assert(acc * 10 + dgt <= u64::MAX) by (nonlinear_arith)
            requires
                acc <= (u64::MAX - dgt) / 10,
                dgt <= 9,
        ;
        acc = acc * 10 + dgt;
        i += 1;
    }
    assert(s@.subrange(start as int, end as int) =~= d);
    Some(acc)
}

/// Reads the quota that a raw header value carries: the value must be text,
/// and the part before its first `;` an unsigned integer.
pub fn parse_quota(value: &Vec<u8>) -> (r: Option<u64>)
    ensures
        r == header_quota(value@),
{
    let mut i: usize = 0;
    while i < value.len()
        invariant
            0 <= i <= value@.len(),
            forall|j: int| 0 <= j < i ==> ((32 <= #[trigger] value@[j] && value@[j] < 127) || value@[j] == 9),
        decreases value@.len() - i,
    {
        let b = value[i];
        if !((32u8 <= b && b < 127u8) || b == 9u8) {
            return None;
        }
        i += 1;
    }
    let mut end: usize = 0;
    while end < value.len() && value[end] != 59u8
        invariant
            0 <= end <= value@.len(),
            semi_from(value@, end as int) == semi_from(value@, 0),
        decreases value@.len() - end,
    {
        end += 1;
    }
    parse_u64_prefix(value, end)
}

/// Parse the named header `key` from `headers`.
///
/// An error of kind `Parsing` is returned if there is no header with the
/// passed key, or if its value cannot be read as a quota.
pub fn parse_header(headers: &Vec<Header>, key: &[u8]) -> (r: DrlResult<u64>)
    ensures
        r is Ok <==> header_in(headers@, key@) is Some,
        r is Ok ==> Some(r->Ok_0) == header_in(headers@, key@),
        r is Err ==> r->Err_0.code == ExitCode::Parsing,
{
    match find_header(headers, key) {
        None => Err(parse_error()),
        Some(v) => match parse_quota(v) {
            Some(n) => Ok(n),
            None => Err(parse_error()),
        },
    }
}

/// Turns the quota probe's response into a limit or a classified error.
///
/// Status 429 is `OverLimit` whatever the headers; any other status but 200 is
/// `Connection`; on 200 both rate-limit headers must be there and readable,
/// else the error is `Parsing`.
pub fn limit_from_response(status: u16, headers: &Vec<Header>) -> (r: DrlResult<Limit>)
    ensures
        match probe_outcome(status, headers@) {
            Ok(l) => r == Ok::<Limit, DrlErr>(l),
            Err(code) => r is Err && r->Err_0.code == code,
        },
        status != STATUS_OK && status != STATUS_TOO_MANY_REQUESTS ==> r->Err_0.msg@ == status_message(status),
{
    if status == STATUS_TOO_MANY_REQUESTS {
        return Err(DrlErr::new("over limit".to_owned(), ExitCode::OverLimit));
    }
    if status != STATUS_OK {
        return Err(status_error(status));
    }
    let limit_name: [u8; 15] = [114u8, 97, 116, 101, 108, 105, 109, 105, 116, 45, 108, 105, 109, 105, 116];
    let remaining_name: [u8; 19] = [114u8, 97, 116, 101, 108, 105, 109, 105, 116, 45, 114, 101, 109, 97, 105, 110, 105, 110, 103];
    assert(limit_name@ =~= limit_key());
    assert(remaining_name@ =~= remaining_key());
    let total = parse_header(headers, limit_name.as_slice())?;
    let remaining = parse_header(headers, remaining_name.as_slice())?;
    Ok(Limit { remaining, total })
}

fn digit_text(d: u64) -> (r: &'static str)
    requires
        d < 10,
    ensures
        r@ == seq![dec_char(d as nat)],
{
    proof {
        reveal_strlit("0");
        reveal_strlit("1");
        reveal_strlit("2");
        reveal_strlit("3");
        reveal_strlit("4");
        reveal_strlit("5");
        reveal_strlit("6");
        reveal_strlit("7");
        reveal_strlit("8");
        reveal_strlit("9");
    }
    if d == 0 { "0" } else if d == 1 { "1" } else if d == 2 { "2" } else if d == 3 { "3" }
    else if d == 4 { "4" } else if d == 5 { "5" } else if d == 6 { "6" } else if d == 7 { "7" }
    else if d == 8 { "8" } else { "9" }
}

pub(crate) fn push_decimal(out: &mut String, n: u64)
    ensures
        final(out)@ == old(out)@ + dec_string(n as nat),
    decreases n,
{
    if n >= 10 {
        push_decimal(out, n / 10);
    }
    out.append(digit_text(n % 10));
    assert(final(out)@ =~= old(out)@ + dec_string(n as nat));
}

impl Limit {
    /// The display form `remaining/total`.
    pub fn to_text(&self) -> (r: String)
        ensures
            r@ == limit_text(*self),
    {
        let mut out = String::new();
        push_decimal(&mut out, self.remaining);
        proof {
            reveal_strlit("/");
        }
        out.append("/");
        push_decimal(&mut out, self.total);
        assert(out@ =~= limit_text(*self));
        out
    }
}

proof fn lemma_semi_at(d: Seq<u8>, s: Seq<u8>, i: int)
    requires
        0 <= i <= d.len(),
        d.len() <= s.len(),
        forall|j: int| 0 <= j < d.len() ==> s[j] == d[j] && is_digit(d[j]),
        s.len() == d.len() || s[d.len() as int] == 59u8,
    ensures
        semi_from(s, i) == d.len(),
    decreases d.len() - i,
{
    if i < d.len() {
        assert(is_digit(d[i]));
        lemma_semi_at(d, s, i + 1);
    }
}

/// A header value made of a decimal number, optionally followed by `;` and any
/// text, carries exactly that number: the text after the `;` never changes it.
pub proof fn lemma_quota_is_prefix(digits: Seq<u8>, suffix: Seq<u8>)
    requires
        digits.len() > 0,
        forall|i: int| 0 <= i < digits.len() ==> is_digit(#[trigger] digits[i]),
        digits_value(digits) <= u64::MAX,
        is_visible_ascii(suffix),
    ensures
        header_quota(digits) == Some(digits_value(digits) as u64),
        header_quota(digits + seq![59u8] + suffix) == Some(digits_value(digits) as u64),
{
    let v = digits + seq![59u8] + suffix;
    assert(!is_digit(43u8));
    lemma_semi_at(digits, digits, 0);
    assert(digits.take(digits.len() as int) =~= digits);
    lemma_semi_at(digits, v, 0);
    assert(v.take(digits.len() as int) =~= digits);
    assert forall|i: int| 0 <= i < v.len() implies ((32 <= #[trigger] v[i] && v[i] < 127) || v[i] == 9) by {
        if i < digits.len() {
            assert(is_digit(digits[i]));
        } else if i > digits.len() {
            assert(v[i] == suffix[i - digits.len() - 1]);
        }
    }
    assert forall|i: int| 0 <= i < digits.len() implies ((32 <= #[trigger] digits[i] && digits[i] < 127) || digits[i] == 9) by {
        assert(is_digit(digits[i]));
    }
}

/// A probe answered with 429 is over the limit, whatever headers came with it.
pub proof fn lemma_too_many_requests_is_over_limit(hs: Seq<Header>)
    ensures
        probe_outcome(STATUS_TOO_MANY_REQUESTS, hs) == Err::<Limit, ExitCode>(ExitCode::OverLimit),
{
}

/// A successful probe that lacks either rate-limit header is a parsing error,
/// never a default limit.
pub proof fn lemma_missing_header_is_parsing(hs: Seq<Header>)
    requires
        lookup(hs, limit_key()) is None || lookup(hs, remaining_key()) is None,
    ensures
        probe_outcome(STATUS_OK, hs) == Err::<Limit, ExitCode>(ExitCode::Parsing),
{
}

} // verus!
