//! JSON-RPC envelope pieces that the transports and the gateway decide on:
//! request ids, their decimal text, and errors reported by a backend.
use vstd::prelude::*;

use crate::error::AppError;
use crate::text::{chars_of, concat, string_of};

verus! {

/// The `id` of an incoming JSON-RPC message, as far as correlation needs it.
#[derive(Debug, Clone, PartialEq, Eq)]
pub enum WireId {
    /// A non-negative integer that fits in 64 bits.
    Number(u64),
    /// A string.
    Text(String),
    /// Any other value (negative or fractional number, null, ...).
    Other,
}

/// The `error` member of a JSON-RPC response.
#[derive(Debug, Clone, PartialEq, Eq)]
pub struct RpcErrorInfo {
    pub code: i64,
    pub message: String,
}

pub open spec fn is_digit(c: char) -> bool {
    '0' <= c && c <= '9'
}

pub open spec fn digit_value(c: char) -> int {
    c as int - '0' as int
}

pub open spec fn digit_char(d: int) -> char {
    (d + '0' as int) as char
}

/// The number that a string of digits spells.
pub open spec fn digits_value(s: Seq<char>) -> int
    decreases s.len(),
{
    if s.len() == 0 {
        0
    } else {
        digits_value(s.drop_last()) * 10 + digit_value(s.last())
    }
}

/// Digits only, at least one, and no leading zero unless it is `0` itself:
/// the text that `u64::to_string` gives.
pub open spec fn is_canonical_decimal(s: Seq<char>) -> bool {
    s.len() > 0 && (forall|i: int| 0 <= i < s.len() ==> is_digit(#[trigger] s[i])) && (s.len()
        == 1 || s[0] != '0')
}

/// The decimal text of a natural number.
pub open spec fn decimal_text(n: nat) -> Seq<char>
    decreases n,
{
    if n < 10 {
        seq![digit_char(n as int)]
    } else {
        decimal_text(n / 10) + seq![digit_char((n % 10) as int)]
    }
}

/// The decimal text of an integer, with a minus sign when negative.
pub open spec fn signed_text(n: int) -> Seq<char> {
    if n < 0 {
        seq!['-'] + decimal_text((-n) as nat)
    } else {
        decimal_text(n as nat)
    }
}

/// The pending-request key that a response id names: a number as it is, a
/// string when it is the decimal text of a 64-bit number.
pub open spec fn key_of(id: WireId) -> Option<u64> {
    match id {
        WireId::Number(n) => Some(n),
        WireId::Text(s) => if is_canonical_decimal(s@) && digits_value(s@) <= u64::MAX {
            Some(digits_value(s@) as u64)
        } else {
            None
        },
        WireId::Other => None,
    }
}

proof fn lemma_digits_nonneg(s: Seq<char>)
    requires
        forall|i: int| 0 <= i < s.len() ==> is_digit(#[trigger] s[i]),
    ensures
        digits_value(s) >= 0,
    decreases s.len(),
{
    if s.len() > 0 {
        assert(is_digit(s[s.len() - 1]));
        lemma_digits_nonneg(s.drop_last());
    }
}

proof fn lemma_digits_grow(s: Seq<char>, k: int)
    requires
        forall|i: int| 0 <= i < s.len() ==> is_digit(#[trigger] s[i]),
        0 <= k <= s.len(),
    ensures
        digits_value(s) >= digits_value(s.subrange(0, k)),
    decreases s.len() - k,
{
    if k < s.len() {
        lemma_digits_grow(s, k + 1);
        let p = s.subrange(0, k + 1);
        assert(p.drop_last() =~= s.subrange(0, k));
        assert(is_digit(p.last()));
        lemma_digits_nonneg(s.subrange(0, k));
    } else {
        assert(s.subrange(0, k) =~= s);
    }
}

/// The number that `s` spells, when it is canonical decimal text of a
/// 64-bit number.
pub fn parse_canonical_u64(s: &[char]) -> (r: Option<u64>)
    ensures
        r == (if is_canonical_decimal(s@) && digits_value(s@) <= u64::MAX {
            Some(digits_value(s@) as u64)
        } else {
            None
        }),
{
    if s.len() == 0 || (s.len() > 1 && s[0] == '0') {
        return None;
    }
    let mut v: u64 = 0;
    let mut i: usize = 0;
    while i < s.len()
        invariant
            0 < s@.len(),
            i <= s@.len(),
            s@.len() == 1 || s@[0] != '0',
            forall|k: int| 0 <= k < i ==> is_digit(#[trigger] s@[k]),
            v == digits_value(s@.subrange(0, i as int)),
        decreases s@.len() - i,
    {
        let c = s[i];
        if !('0' <= c && c <= '9') {
            return None;
        }
        let d = (c as u32 - '0' as u32) as u64;
        let ghost p = s@.subrange(0, i + 1);
        assert(p.drop_last() =~= s@.subrange(0, i as int));
        if v > (u64::MAX - d) / 10 {
            proof {
                assert(forall|k: int| 0 <= k < i + 1 ==> is_digit(#[trigger] s@[k]));
                assert(digits_value(p) > u64::MAX) by (nonlinear_arith)
                    requires
                        digits_value(p) == v * 10 + d,
                        v > (u64::MAX - d) / 10,
                        d <= 9,
                ;
                if forall|k: int| 0 <= k < s@.len() ==> is_digit(#[trigger] s@[k]) {
                    lemma_digits_grow(s@, i + 1);
                }
            }
            return None;
        }
        assert(v * 10 + d <= u64::MAX) by (nonlinear_arith)
            requires
                v <= (u64::MAX - d) / 10,
                d <= 9,
        ;
        v = v * 10 + d;
        i = i + 1;
    }
    assert(s@.subrange(0, s@.len() as int) =~= s@);
    Some(v)
}

/// The pending-request key that a response id names (see `key_of`).
pub fn response_key(id: &WireId) -> (r: Option<u64>)
    ensures
        r == key_of(*id),
{
    match id {
        WireId::Number(n) => Some(*n),
        WireId::Text(s) => parse_canonical_u64(chars_of(s.as_str()).as_slice()),
        WireId::Other => None,
    }
}

/// The decimal text of `n`.
pub fn u64_text(n: u64) -> (r: Vec<char>)
    ensures
        r@ == decimal_text(n as nat),
    decreases n,
{
    let d = (n % 10) as u32;
    let c = char_of_digit(d);
    if n < 10 {
        let mut r: Vec<char> = Vec::new();
        r.push(c);
        assert(r@ =~= seq![digit_char(n as int)]);
        r
    } else {
        let mut r = u64_text(n / 10);
        r.push(c);
        r
    }
}

fn char_of_digit(d: u32) -> (c: char)
    requires
        d < 10,
    ensures
        c == digit_char(d as int),
{
    if d == 0 { '0' }
    else if d == 1 { '1' }
    else if d == 2 { '2' }
    else if d == 3 { '3' }
    else if d == 4 { '4' }
    else if d == 5 { '5' }
    else if d == 6 { '6' }
    else if d == 7 { '7' }
    else if d == 8 { '8' }
    else { '9' }
}

/// The decimal text of `n`, with a minus sign when negative.
pub fn i64_text(n: i64) -> (r: Vec<char>)
    ensures
        r@ == signed_text(n as int),
{
    if n < 0 {
        let m: u64 = if n == i64::MIN {
            9223372036854775808u64
        } else {
            (-n) as u64
        };
        let digits = u64_text(m);
        let mut r: Vec<char> = Vec::new();
        r.push('-');
        concat(r.as_slice(), digits.as_slice())
    } else {
        u64_text(n as u64)
    }
}

/// The message of a backend's JSON-RPC error: `<code>: <message>`.
pub open spec fn rpc_error_text(e: RpcErrorInfo) -> Seq<char> {
    signed_text(e.code as int) + ": "@ + e.message@
}

/// The error a transport returns for a JSON-RPC error response.
pub fn protocol_error(e: &RpcErrorInfo) -> (r: AppError)
    ensures
        r matches AppError::Protocol(m) && m@ == rpc_error_text(*e),
{
    let code = i64_text(e.code);
    let with_sep = concat(code.as_slice(), chars_of(": ").as_slice());
    let text = concat(with_sep.as_slice(), chars_of(e.message.as_str()).as_slice());
    AppError::Protocol(string_of(text.as_slice()))
}

/// Fails with the backend's error when a JSON-RPC response carries one.
pub fn check_response_error(error: &Option<RpcErrorInfo>) -> (r: Result<(), AppError>)
    ensures
        match error {
            Some(e) => r matches Err(AppError::Protocol(m)) && m@ == rpc_error_text(*e),
            None => r is Ok,
        },
{
    match error {
        Some(e) => Err(protocol_error(e)),
        None => Ok(()),
    }
}

} // verus!
