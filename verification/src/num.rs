//! Decimal formatting and parsing for the integers the protocol carries:
//! `Content-Length` values, numeric request ids and positions.

use vstd::prelude::*;

verus! {

pub open spec fn is_digit(c: char) -> bool {
    '0' <= c && c <= '9'
}

pub open spec fn digit_val(c: char) -> nat {
    (c as int - '0' as int) as nat
}

pub open spec fn digit_char(d: nat) -> char {
    (d + '0' as int) as char
}

pub open spec fn all_digits(s: Seq<char>) -> bool {
    forall|i: int| 0 <= i < s.len() ==> is_digit(#[trigger] s[i])
}

/// The decimal representation of a natural number, most significant digit
/// first, with no leading zero except for zero itself.
pub open spec fn dec_rep(n: nat) -> Seq<char>
    decreases n,
{
    if n < 10 {
        seq![digit_char(n)]
    } else {
        dec_rep(n / 10).push(digit_char(n % 10))
    }
}

/// The numeric value of a sequence of decimal digits.
pub open spec fn dec_val(s: Seq<char>) -> nat
    decreases s.len(),
{
    if s.len() == 0 {
        0
    } else {
        dec_val(s.drop_last()) * 10 + digit_val(s.last())
    }
}

/// The decimal representation of a (possibly negative) integer.
pub open spec fn int_rep(i: int) -> Seq<char> {
    if i < 0 {
        seq!['-'] + dec_rep((-i) as nat)
    } else {
        dec_rep(i as nat)
    }
}

/// The integer value of a decimal lexeme with an optional leading minus
/// sign, if the lexeme is well formed.
pub open spec fn int_lex_val(s: Seq<char>) -> Option<int> {
    if s.len() >= 2 && s[0] == '-' && all_digits(s.skip(1)) {
        Some(-(dec_val(s.skip(1)) as int))
    } else if s.len() >= 1 && all_digits(s) {
        Some(dec_val(s) as int)
    } else {
        None
    }
}

pub proof fn lemma_dec_rep_digits(n: nat)
    ensures
        dec_rep(n).len() >= 1,
        all_digits(dec_rep(n)),
        dec_rep(n).len() > 1 ==> dec_rep(n)[0] != '0',
        n >= 1 ==> dec_rep(n)[0] != '0',
    decreases n,
{
    if n < 10 {
        assert(is_digit(digit_char(n)));
    } else {
        lemma_dec_rep_digits(n / 10);
        assert(is_digit(digit_char(n % 10)));
        assert(dec_rep(n)[0] == dec_rep(n / 10)[0]);
    }
}

pub proof fn lemma_dec_roundtrip(n: nat)
    ensures
        dec_val(dec_rep(n)) == n,
    decreases n,
{
    if n < 10 {
        assert(dec_rep(n) == seq![digit_char(n)]);
        assert(dec_rep(n).drop_last() =~= Seq::<char>::empty());
        assert(dec_val(Seq::<char>::empty()) == 0);
        assert(digit_val(digit_char(n)) == n);
        assert(dec_val(dec_rep(n)) == dec_val(dec_rep(n).drop_last()) * 10 + digit_val(
            dec_rep(n).last(),
        ));
    } else {
        lemma_dec_roundtrip(n / 10);
        let prefix = dec_rep(n / 10);
        assert(dec_rep(n) == prefix.push(digit_char(n % 10)));
        assert(prefix.push(digit_char(n % 10)).drop_last() =~= prefix);
        assert(digit_val(digit_char(n % 10)) == n % 10);
        assert(dec_val(dec_rep(n)) == (n / 10) * 10 + n % 10);
        assert((n / 10) * 10 + n % 10 == n) by (nonlinear_arith);
    }
}

pub proof fn lemma_dec_val_prefix(s: Seq<char>, i: int, j: int)
    requires
        0 <= i <= j <= s.len(),
    ensures
        dec_val(s.subrange(0, i)) <= dec_val(s.subrange(0, j)),
    decreases j - i,
{
    if i < j {
        lemma_dec_val_prefix(s, i, j - 1);
        let sj = s.subrange(0, j);
        assert(sj.drop_last() =~= s.subrange(0, j - 1));
        assert(dec_val(sj) == dec_val(s.subrange(0, j - 1)) * 10 + digit_val(sj.last()));
        assert(dec_val(s.subrange(0, j - 1)) * 10 >= dec_val(s.subrange(0, j - 1)));
    }
}

pub proof fn lemma_int_lex_roundtrip(i: int)
    ensures
        int_lex_val(int_rep(i)) == Some(i),
{
    if i < 0 {
        let digits = dec_rep((-i) as nat);
        lemma_dec_rep_digits((-i) as nat);
        lemma_dec_roundtrip((-i) as nat);
        let s = int_rep(i);
        assert(s == seq!['-'] + digits);
        assert(s.len() >= 2);
        assert(s[0] == '-');
        assert(s.skip(1) =~= digits);
    } else {
        let s = int_rep(i);
        lemma_dec_rep_digits(i as nat);
        lemma_dec_roundtrip(i as nat);
        assert(s[0] != '-') by {
            assert(is_digit(s[0]));
        }
    }
}

/// Format a natural number in decimal.
pub fn u64_to_dec(n: u64) -> (r: Vec<char>)
    ensures
        r@ == dec_rep(n as nat),
    decreases n,
{
    let d: u8 = 48 + (n % 10) as u8;
    let c = d as char;
    proof {
        assert(c == digit_char((n % 10) as nat));
    }
    if n < 10 {
        let mut r: Vec<char> = Vec::new();
        r.push(c);
        proof {
            assert(r@ =~= dec_rep(n as nat));
        }
        r
    } else {
        let mut r = u64_to_dec(n / 10);
        r.push(c);
        proof {
            assert(r@ =~= dec_rep(n as nat));
        }
        r
    }
}

/// Format a 32-bit integer in decimal, with a leading minus sign when it
/// is negative.
pub fn i32_to_dec(n: i32) -> (r: Vec<char>)
    ensures
        r@ == int_rep(n as int),
{
    if n < 0 {
        let m: u64 = (-(n as i64)) as u64;
        let digits = u64_to_dec(m);
        let mut r: Vec<char> = Vec::new();
        r.push('-');
        let mut digits = digits;
        r.append(&mut digits);
        proof {
            assert(r@ =~= int_rep(n as int));
        }
        r
    } else {
        let r = u64_to_dec(n as u64);
        r
    }
}

/// Parse a sequence of decimal digits as a `u32`; `None` when the sequence
/// is empty, holds a non-digit, or does not fit.
pub fn parse_u32_dec(v: &Vec<char>) -> (r: Option<u32>)
    ensures
        match r {
            Some(x) => v@.len() >= 1 && all_digits(v@) && dec_val(v@) == x,
            None => !(v@.len() >= 1 && all_digits(v@) && dec_val(v@) <= u32::MAX),
        },
{
    if v.len() == 0 {
        return None;
    }
    let mut acc: u64 = 0;
    let mut i: usize = 0;
    while i < v.len()
        invariant
            i <= v@.len(),
            forall|j: int| 0 <= j < i ==> is_digit(#[trigger] v@[j]),
            acc == dec_val(v@.subrange(0, i as int)),
            acc <= u32::MAX,
        decreases v@.len() - i,
    {
        let c = v[i];
        if c < '0' || c > '9' {
            return None;
        }
        let d: u64 = (c as u32 - 48) as u64;
        acc = acc * 10 + d;
        i += 1;
        proof {
            let s = v@.subrange(0, i as int);
            assert(s.drop_last() =~= v@.subrange(0, i - 1));
            assert(s.last() == c);
            assert(digit_val(c) == d);
        }
        if acc > 0xFFFF_FFFF {
            proof {
                lemma_dec_val_prefix(v@, i as int, v@.len() as int);
                assert(v@.subrange(0, v@.len() as int) =~= v@);
            }
            return None;
        }
    }
    proof {
        assert(v@.subrange(0, v@.len() as int) =~= v@);
    }
    Some(acc as u32)
}

/// Parse a decimal lexeme with an optional leading minus sign as an `i32`.
pub fn parse_i32_dec(v: &Vec<char>) -> (r: Option<i32>)
    ensures
        match r {
            Some(x) => int_lex_val(v@) == Some(x as int),
            None => !(int_lex_val(v@) matches Some(value) && i32::MIN <= value <= i32::MAX),
        },
{
    if v.len() >= 2 && v[0] == '-' {
        let mut digits: Vec<char> = Vec::new();
        let mut i: usize = 1;
        while i < v.len()
            invariant
                1 <= i <= v@.len(),
                digits@ == v@.subrange(1, i as int),
            decreases v@.len() - i,
        {
            digits.push(v[i]);
            i += 1;
            proof {
                assert(digits@ =~= v@.subrange(1, i as int));
            }
        }
        proof {
            assert(digits@ =~= v@.skip(1));
        }
        match parse_u32_dec(&digits) {
            Some(x) => {
                if x > 0x8000_0000 {
                    return None;
                }
                let r = (-(x as i64)) as i32;
                Some(r)
            },
            None => {
                proof {
                    if int_lex_val(v@) is Some && i32::MIN <= int_lex_val(v@)->Some_0
                        <= i32::MAX {
                        assert(all_digits(v@.skip(1)));
                        assert(int_lex_val(v@)->Some_0 == -(dec_val(v@.skip(1)) as int));
                        assert(dec_val(digits@) <= u32::MAX);
                    }
                }
                None
            },
        }
    } else {
        match parse_u32_dec(v) {
            Some(x) => {
                if x > 0x7FFF_FFFF {
                    proof {
                        assert(v@[0] == '-' ==> !is_digit(v@[0]));
                    }
                    return None;
                }
                proof {
                    assert(v@[0] != '-') by {
                        assert(is_digit(v@[0]));
                    }
                }
                Some(x as i32)
            },
            None => {
                proof {
                    if int_lex_val(v@) is Some && i32::MIN <= int_lex_val(v@)->Some_0
                        <= i32::MAX {
                        if v@.len() >= 2 && v@[0] == '-' && all_digits(v@.skip(1)) {
                        } else {
                            assert(all_digits(v@));
                        }
                    }
                }
                None
            },
        }
    }
}

} // verus!
