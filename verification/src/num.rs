//! Decimal literals: the numeric syntax the machine's `set`, `jump` and
//! conditional-jump operands use, together with the decimal rendering that
//! `view` and numeric `goto` targets rely on. Every executable function here
//! is proved against a spec-level account of digit strings.

use vstd::prelude::*;

verus! {

pub open spec fn is_digit(b: u8) -> bool {
    '0' as u8 <= b && b <= '9' as u8
}

pub open spec fn digit_val(b: u8) -> nat {
    (b - '0' as u8) as nat
}

pub open spec fn all_digits(s: Seq<u8>) -> bool {
    forall|i: int| 0 <= i < s.len() ==> is_digit(#[trigger] s[i])
}

/// The number a digit string stands for, most significant digit first.
pub open spec fn digits_val(s: Seq<u8>) -> nat
    decreases s.len(),
{
    if s.len() == 0 {
        0
    } else {
        digits_val(s.drop_last()) * 10 + digit_val(s.last())
    }
}

/// An unsigned literal is an optional `+` followed by one or more digits.
pub open spec fn unsigned_body(s: Seq<u8>) -> Seq<u8> {
    if s.len() > 0 && s[0] == '+' as u8 {
        s.skip(1)
    } else {
        s
    }
}

pub open spec fn is_unsigned_lit(s: Seq<u8>) -> bool {
    unsigned_body(s).len() > 0 && all_digits(unsigned_body(s))
}

pub open spec fn unsigned_val(s: Seq<u8>) -> nat {
    digits_val(unsigned_body(s))
}

/// A signed literal is an optional `+` or `-` followed by one or more digits.
pub open spec fn signed_neg(s: Seq<u8>) -> bool {
    s.len() > 0 && s[0] == '-' as u8
}

pub open spec fn signed_body(s: Seq<u8>) -> Seq<u8> {
    if s.len() > 0 && (s[0] == '+' as u8 || s[0] == '-' as u8) {
        s.skip(1)
    } else {
        s
    }
}

pub open spec fn is_signed_lit(s: Seq<u8>) -> bool {
    signed_body(s).len() > 0 && all_digits(signed_body(s))
}

pub open spec fn signed_val(s: Seq<u8>) -> int {
    if signed_neg(s) {
        -(digits_val(signed_body(s)) as int)
    } else {
        digits_val(signed_body(s)) as int
    }
}

pub open spec fn parse_u8_spec(s: Seq<u8>) -> Option<u8> {
    if is_unsigned_lit(s) && unsigned_val(s) <= u8::MAX {
        Some(unsigned_val(s) as u8)
    } else {
        None
    }
}

pub open spec fn parse_usize_spec(s: Seq<u8>) -> Option<usize> {
    if is_unsigned_lit(s) && unsigned_val(s) <= usize::MAX {
        Some(unsigned_val(s) as usize)
    } else {
        None
    }
}

pub open spec fn parse_i8_spec(s: Seq<u8>) -> Option<i8> {
    if is_signed_lit(s) && i8::MIN <= signed_val(s) && signed_val(s) <= i8::MAX {
        Some(signed_val(s) as i8)
    } else {
        None
    }
}

pub open spec fn parse_i32_spec(s: Seq<u8>) -> Option<i32> {
    if is_signed_lit(s) && i32::MIN <= signed_val(s) && signed_val(s) <= i32::MAX {
        Some(signed_val(s) as i32)
    } else {
        None
    }
}

/// The canonical decimal rendering of a natural number.
pub open spec fn dec_rep(n: nat) -> Seq<u8>
    decreases n,
{
    if n < 10 {
        seq![(n + '0' as u8) as u8]
    } else {
        dec_rep(n / 10).push((n % 10 + '0' as u8) as u8)
    }
}

/// The canonical decimal rendering of an integer, `-` first when negative.
pub open spec fn dec_rep_int(v: int) -> Seq<u8> {
    if v < 0 {
        seq!['-' as u8].add(dec_rep((-v) as nat))
    } else {
        dec_rep(v as nat)
    }
}

/// A prefix of a digit string never stands for more than the whole string.
proof fn lemma_digits_val_prefix_le(s: Seq<u8>, k: int)
    requires
        0 <= k <= s.len(),
    ensures
        digits_val(s.take(k)) <= digits_val(s),
    decreases s.len(),
{
    if k < s.len() {
        assert(s.drop_last().take(k) =~= s.take(k));
        lemma_digits_val_prefix_le(s.drop_last(), k);
    } else {
        assert(s.take(k) =~= s);
    }
}

/// Core of the literal parsers: the digits of `s` from `start` on, as a
/// number, or `None` on an empty, non-digit or too-large digit string.
fn parse_digits(s: &Vec<u8>, start: usize) -> (r: Option<u64>)
    requires
        start <= s@.len(),
    ensures
        ({
            let body = s@.skip(start as int);
            match r {
                Some(x) => body.len() > 0 && all_digits(body) && digits_val(body) == x,
                None => !(body.len() > 0 && all_digits(body) && digits_val(body) <= u64::MAX),
            }
        }),
{
    let ghost body = s@.skip(start as int);
    if start == s.len() {
        return None;
    }
    let mut i: usize = start;
    let mut acc: u64 = 0;
    while i < s.len()
        invariant
            start <= i <= s@.len(),
            start < s@.len(),
            body == s@.skip(start as int),
            all_digits(body.take(i - start)),
            digits_val(body.take(i - start)) == acc,
        decreases s@.len() - i,
    {
        let b = s[i];
        assert(body[i - start] == s@[i as int]);
        if b < '0' as u8 || b > '9' as u8 {
            assert(!is_digit(body[i - start]));
            return None;
        }
        let d: u64 = (b - 48) as u64;
        proof {
            assert(body.take(i - start + 1).drop_last() =~= body.take(i - start));
            assert(body.take(i - start + 1).last() == body[i - start]);
        }
        if acc > u64::MAX / 10 || (acc == u64::MAX / 10 && d > 5) {
            proof {
                assert(digits_val(body.take(i - start + 1)) == acc * 10 + d);
                assert(digits_val(body.take(i - start + 1)) > u64::MAX);
                lemma_digits_val_prefix_le(body, i - start + 1);
            }
            return None;
        }
        acc = acc * 10 + d;
        i = i + 1;
    }
    proof {
        assert(body.take(i - start) =~= body);
    }
    Some(acc)
}

/// Parses an unsigned literal (optional `+`, digits) into a `u8`.
pub fn parse_u8_tok(s: &Vec<u8>) -> (r: Option<u8>)
    ensures
        r == parse_u8_spec(s@),
{
    let start: usize = if s.len() > 0 && s[0] == '+' as u8 {
        1
    } else {
        0
    };
    proof {
        if start == 1 {
            assert(unsigned_body(s@) == s@.skip(1));
        } else {
            assert(unsigned_body(s@) == s@);
            assert(s@.skip(0) =~= s@);
        }
    }
    match parse_digits(s, start) {
        Some(x) => if x <= u8::MAX as u64 {
            Some(x as u8)
        } else {
            None
        },
        None => None,
    }
}

/// Parses an unsigned literal into a `usize` (a statement index).
pub fn parse_usize_tok(s: &Vec<u8>) -> (r: Option<usize>)
    ensures
        r == parse_usize_spec(s@),
{
    let start: usize = if s.len() > 0 && s[0] == '+' as u8 {
        1
    } else {
        0
    };
    proof {
        if start == 1 {
            assert(unsigned_body(s@) == s@.skip(1));
        } else {
            assert(unsigned_body(s@) == s@);
            assert(s@.skip(0) =~= s@);
        }
    }
    match parse_digits(s, start) {
        Some(x) => if x <= usize::MAX as u64 {
            Some(x as usize)
        } else {
            None
        },
        None => None,
    }
}

/// Parses a signed literal (optional `+` or `-`, digits) into an `i8`.
pub fn parse_i8_tok(s: &Vec<u8>) -> (r: Option<i8>)
    ensures
        r == parse_i8_spec(s@),
{
    let neg: bool = s.len() > 0 && s[0] == '-' as u8;
    let start: usize = if s.len() > 0 && (s[0] == '+' as u8 || s[0] == '-' as u8) {
        1
    } else {
        0
    };
    proof {
        if start == 1 {
            assert(signed_body(s@) == s@.skip(1));
        } else {
            assert(signed_body(s@) == s@);
            assert(s@.skip(0) =~= s@);
        }
    }
    match parse_digits(s, start) {
        Some(x) => if neg {
            if x <= 128 {
                Some((-(x as i64)) as i8)
            } else {
                None
            }
        } else {
            if x <= i8::MAX as u64 {
                Some(x as i8)
            } else {
                None
            }
        },
        None => None,
    }
}

/// Parses a signed literal into an `i32` (the process register's width).
pub fn parse_i32_tok(s: &Vec<u8>) -> (r: Option<i32>)
    ensures
        r == parse_i32_spec(s@),
{
    let neg: bool = s.len() > 0 && s[0] == '-' as u8;
    let start: usize = if s.len() > 0 && (s[0] == '+' as u8 || s[0] == '-' as u8) {
        1
    } else {
        0
    };
    proof {
        if start == 1 {
            assert(signed_body(s@) == s@.skip(1));
        } else {
            assert(signed_body(s@) == s@);
            assert(s@.skip(0) =~= s@);
        }
    }
    match parse_digits(s, start) {
        Some(x) => if neg {
            if x <= 0x8000_0000 {
                Some((-(x as i64)) as i32)
            } else {
                None
            }
        } else {
            if x <= i32::MAX as u64 {
                Some(x as i32)
            } else {
                None
            }
        },
        None => None,
    }
}

/// Renders a `u64` in decimal, matching `dec_rep`.
pub fn u64_to_dec(n: u64) -> (v: Vec<u8>)
    ensures
        v@ == dec_rep(n as nat),
    decreases n,
{
    if n < 10 {
        let mut v: Vec<u8> = Vec::new();
        v.push(n as u8 + '0' as u8);
        proof {
            assert(v@ =~= dec_rep(n as nat));
        }
        v
    } else {
        let mut v = u64_to_dec(n / 10);
        v.push((n % 10) as u8 + '0' as u8);
        v
    }
}

/// Renders an `i64` in decimal, matching `dec_rep_int`.
pub fn i64_to_dec(n: i64) -> (v: Vec<u8>)
    ensures
        v@ == dec_rep_int(n as int),
{
    if n < 0 {
        let mag: u64 = if n == i64::MIN {
            0x8000_0000_0000_0000
        } else {
            (-n) as u64
        };
        let mut v: Vec<u8> = Vec::new();
        v.push('-' as u8);
        let digits = u64_to_dec(mag);
        let mut i: usize = 0;
        while i < digits.len()
            invariant
                0 <= i <= digits@.len(),
                v@ == seq!['-' as u8].add(digits@.take(i as int)),
            decreases digits@.len() - i,
        {
            let b = digits[i];
            v.push(b);
            proof {
                assert(digits@.take(i + 1) =~= digits@.take(i as int).push(digits@[i as int]));
            }
            i = i + 1;
        }
        proof {
            assert(digits@.take(digits@.len() as int) =~= digits@);
        }
        v
    } else {
        u64_to_dec(n as u64)
    }
}

/// The decimal rendering of `n` is a digit string that stands for `n` again.
pub proof fn lemma_dec_rep_round_trip(n: nat)
    ensures
        dec_rep(n).len() >= 1,
        all_digits(dec_rep(n)),
        digits_val(dec_rep(n)) == n,
    decreases n,
{
    if n < 10 {
        let w = dec_rep(n);
        assert(w == seq![(n + '0' as u8) as u8]);
        assert(w.len() == 1);
        assert(w.drop_last() =~= Seq::<u8>::empty());
        assert(digits_val(w.drop_last()) == 0);
        assert(w.last() == (n + '0' as u8) as u8);
        assert(digit_val(w.last()) == n);
        assert(digits_val(w) == digits_val(w.drop_last()) * 10 + digit_val(w.last()));
    } else {
        lemma_dec_rep_round_trip(n / 10);
        let w = dec_rep(n);
        assert(w == dec_rep(n / 10).push((n % 10 + '0' as u8) as u8));
        assert(w.drop_last() =~= dec_rep(n / 10));
        assert(w.last() == (n % 10 + '0' as u8) as u8);
        assert(digits_val(w) == (n / 10) * 10 + n % 10);
    }
}

/// An unsigned value in range parses back from its rendering.
pub proof fn lemma_dec_rep_parses_u8(n: u8)
    ensures
        parse_u8_spec(dec_rep(n as nat)) == Some(n),
{
    lemma_dec_rep_round_trip(n as nat);
    let s = dec_rep(n as nat);
    assert(is_digit(s[0]));
    assert(unsigned_body(s) == s);
}

/// A signed value in range parses back from its rendering.
pub proof fn lemma_dec_rep_parses_i8(n: i8)
    ensures
        parse_i8_spec(dec_rep_int(n as int)) == Some(n),
{
    let s = dec_rep_int(n as int);
    if n < 0 {
        let mag = (-(n as int)) as nat;
        lemma_dec_rep_round_trip(mag);
        assert(s == seq!['-' as u8].add(dec_rep(mag)));
        assert(s[0] == '-' as u8);
        assert(s.skip(1) =~= dec_rep(mag));
        assert(signed_body(s) == s.skip(1));
        assert(signed_neg(s));
        assert(signed_val(s) == n as int);
    } else {
        lemma_dec_rep_round_trip(n as nat);
        assert(is_digit(s[0]));
        assert(s[0] != '-' as u8 && s[0] != '+' as u8);
        assert(signed_body(s) == s);
        assert(!signed_neg(s));
        assert(signed_val(s) == n as int);
    }
}

} // verus!
