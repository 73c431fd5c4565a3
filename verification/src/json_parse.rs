//! A strict JSON reader.
//!
//! The grammar is parsed by recursive descent; the specification-level
//! parser (`jparse` and its helpers) pins down exactly which texts are
//! accepted and what document they denote, and the executable parser is
//! proved to return exactly that.

use vstd::prelude::*;

verus! {

use crate::json::{Json, JsonV, jv, jarr_view, jobj_view};
use crate::num::is_digit;
use crate::chars::chars_to_string;

broadcast use vstd::std_specs::vec::group_vec_axioms, vstd::utf8::char_is_scalar, vstd::utf8::char_u32_cast;

pub open spec fn is_ws(c: char) -> bool {
    c == ' ' || c == '\t' || c == '\n' || c == '\r'
}

/// The first position at or after `i` that does not hold whitespace.
pub open spec fn skip_ws(s: Seq<char>, i: int) -> int
    decreases s.len() - i,
{
    if 0 <= i < s.len() && is_ws(s[i]) {
        skip_ws(s, i + 1)
    } else {
        i
    }
}

/// The first position at or after `i` that does not hold a decimal digit.
pub open spec fn digits_end(s: Seq<char>, i: int) -> int
    decreases s.len() - i,
{
    if 0 <= i < s.len() && is_digit(s[i]) {
        digits_end(s, i + 1)
    } else {
        i
    }
}

/// The value of one hexadecimal digit.
pub open spec fn hex_val(c: char) -> Option<u32> {
    if '0' <= c && c <= '9' {
        Some((c as u32 - '0' as u32) as u32)
    } else if 'a' <= c && c <= 'f' {
        Some((c as u32 - 'a' as u32 + 10) as u32)
    } else if 'A' <= c && c <= 'F' {
        Some((c as u32 - 'A' as u32 + 10) as u32)
    } else {
        None
    }
}

/// The value of the four hexadecimal digits at `i`.
pub open spec fn hex4(s: Seq<char>, i: int) -> Option<u32> {
    if 0 <= i && i + 4 <= s.len() && hex_val(s[i]) is Some && hex_val(s[i + 1]) is Some && hex_val(
        s[i + 2],
    ) is Some && hex_val(s[i + 3]) is Some {
        Some(
            (hex_val(s[i])->Some_0 * 0x1000 + hex_val(s[i + 1])->Some_0 * 0x100 + hex_val(
                s[i + 2],
            )->Some_0 * 0x10 + hex_val(s[i + 3])->Some_0) as u32,
        )
    } else {
        None
    }
}

pub open spec fn strbody_cons(c: char, rest: Option<(Seq<char>, int)>) -> Option<(Seq<char>, int)> {
    match rest {
        Some((cs, j)) => Some((seq![c] + cs, j)),
        None => None,
    }
}

/// Parse the body of a string literal starting just after the opening
/// quote; yields the decoded characters and the position just after the
/// closing quote.
pub open spec fn jp_strbody(s: Seq<char>, i: int) -> Option<(Seq<char>, int)>
    decreases s.len() - i,
{
    if !(0 <= i < s.len()) {
        None
    } else {
        let c = s[i];
        if c == '"' {
            Some((Seq::empty(), i + 1))
        } else if c == '\\' {
            if !(i + 1 < s.len()) {
                None
            } else {
                let e = s[i + 1];
                if e == '"' || e == '\\' || e == '/' {
                    strbody_cons(e, jp_strbody(s, i + 2))
                } else if e == 'b' {
                    strbody_cons(8u32 as char, jp_strbody(s, i + 2))
                } else if e == 'f' {
                    strbody_cons(12u32 as char, jp_strbody(s, i + 2))
                } else if e == 'n' {
                    strbody_cons('\n', jp_strbody(s, i + 2))
                } else if e == 'r' {
                    strbody_cons('\r', jp_strbody(s, i + 2))
                } else if e == 't' {
                    strbody_cons('\t', jp_strbody(s, i + 2))
                } else if e == 'u' {
                    match hex4(s, i + 2) {
                        None => None,
                        Some(v) => if 0xD800 <= v <= 0xDBFF {
                            let lo = hex4(s, i + 8);
                            if i + 12 <= s.len() && s[i + 6] == '\\' && s[i + 7] == 'u'
                                && lo is Some && 0xDC00 <= lo->Some_0 <= 0xDFFF {
                                let scalar = 0x10000 + (v - 0xD800) * 0x400 + (lo->Some_0
                                    - 0xDC00);
                                strbody_cons(scalar as char, jp_strbody(s, i + 12))
                            } else {
                                None
                            }
                        } else if 0xDC00 <= v <= 0xDFFF {
                            None
                        } else {
                            strbody_cons(v as char, jp_strbody(s, i + 6))
                        },
                    }
                } else {
                    None
                }
            }
        } else if ' ' > c {
            None
        } else {
            strbody_cons(c, jp_strbody(s, i + 1))
        }
    }
}

/// Parse a number token; yields its lexeme and the position after it.
pub open spec fn jp_number(s: Seq<char>, i: int) -> Option<(Seq<char>, int)> {
    let j0 = if 0 <= i < s.len() && s[i] == '-' {
        i + 1
    } else {
        i
    };
    if !(0 <= j0 < s.len() && is_digit(s[j0])) {
        None
    } else {
        let j1 = if s[j0] == '0' {
            j0 + 1
        } else {
            digits_end(s, j0)
        };
        let j2 = if j1 < s.len() && s[j1] == '.' {
            if digits_end(s, j1 + 1) > j1 + 1 {
                digits_end(s, j1 + 1)
            } else {
                -1
            }
        } else {
            j1
        };
        if j2 < 0 {
            None
        } else {
            let j3 = if j2 < s.len() && (s[j2] == 'e' || s[j2] == 'E') {
                let k = if j2 + 1 < s.len() && (s[j2 + 1] == '+' || s[j2 + 1] == '-') {
                    j2 + 2
                } else {
                    j2 + 1
                };
                if digits_end(s, k) > k {
                    digits_end(s, k)
                } else {
                    -1
                }
            } else {
                j2
            };
            if j3 < 0 {
                None
            } else {
                Some((s.subrange(i, j3), j3))
            }
        }
    }
}

/// True when the literal `lit` stands at position `i` of `s`.
pub open spec fn lit_at(s: Seq<char>, i: int, lit: Seq<char>) -> bool {
    0 <= i && i + lit.len() <= s.len() && s.subrange(i, i + lit.len()) == lit
}

/// Parse one value, leading whitespace allowed. `fuel` bounds the
/// nesting the parser will enter; the entry point passes more fuel than
/// any input can consume.
pub open spec fn jp_value(s: Seq<char>, i: int, fuel: nat) -> Option<(JsonV, int)>
    decreases fuel,
{
    if fuel == 0 {
        None
    } else {
        let k = skip_ws(s, i);
        if !(0 <= k < s.len()) {
            None
        } else {
            let c = s[k];
            if c == 'n' {
                if lit_at(s, k, seq!['n', 'u', 'l', 'l']) {
                    Some((JsonV::Null, k + 4))
                } else {
                    None
                }
            } else if c == 't' {
                if lit_at(s, k, seq!['t', 'r', 'u', 'e']) {
                    Some((JsonV::Bool(true), k + 4))
                } else {
                    None
                }
            } else if c == 'f' {
                if lit_at(s, k, seq!['f', 'a', 'l', 's', 'e']) {
                    Some((JsonV::Bool(false), k + 5))
                } else {
                    None
                }
            } else if c == '"' {
                match jp_strbody(s, k + 1) {
                    Some((cs, j)) => Some((JsonV::Str(cs), j)),
                    None => None,
                }
            } else if c == '[' {
                let k2 = skip_ws(s, k + 1);
                if 0 <= k2 < s.len() && s[k2] == ']' {
                    Some((JsonV::Arr(Seq::empty()), k2 + 1))
                } else {
                    match jp_items(s, k + 1, (fuel - 1) as nat) {
                        Some((vs, j)) => Some((JsonV::Arr(vs), j)),
                        None => None,
                    }
                }
            } else if c == '{' {
                let k2 = skip_ws(s, k + 1);
                if 0 <= k2 < s.len() && s[k2] == '}' {
                    Some((JsonV::Obj(Seq::empty()), k2 + 1))
                } else {
                    match jp_mems(s, k + 1, (fuel - 1) as nat) {
                        Some((ms, j)) => Some((JsonV::Obj(ms), j)),
                        None => None,
                    }
                }
            } else if c == '-' || is_digit(c) {
                match jp_number(s, k) {
                    Some((lex, j)) => Some((JsonV::Num(lex), j)),
                    None => None,
                }
            } else {
                None
            }
        }
    }
}

/// Parse the elements of a non-empty array, starting after `[` or `,`.
pub open spec fn jp_items(s: Seq<char>, i: int, fuel: nat) -> Option<(Seq<JsonV>, int)>
    decreases fuel,
{
    if fuel == 0 {
        None
    } else {
        match jp_value(s, i, (fuel - 1) as nat) {
            None => None,
            Some((v, j)) => {
                let k = skip_ws(s, j);
                if 0 <= k < s.len() && s[k] == ',' {
                    match jp_items(s, k + 1, (fuel - 1) as nat) {
                        Some((vs, j2)) => Some((seq![v] + vs, j2)),
                        None => None,
                    }
                } else if 0 <= k < s.len() && s[k] == ']' {
                    Some((seq![v], k + 1))
                } else {
                    None
                }
            },
        }
    }
}

/// Parse the members of a non-empty object, starting after `{` or `,`.
pub open spec fn jp_mems(s: Seq<char>, i: int, fuel: nat) -> Option<
    (Seq<(Seq<char>, JsonV)>, int),
>
    decreases fuel,
{
    if fuel == 0 {
        None
    } else {
        let k0 = skip_ws(s, i);
        if !(0 <= k0 < s.len() && s[k0] == '"') {
            None
        } else {
            match jp_strbody(s, k0 + 1) {
                None => None,
                Some((key, j)) => {
                    let k1 = skip_ws(s, j);
                    if !(0 <= k1 < s.len() && s[k1] == ':') {
                        None
                    } else {
                        match jp_value(s, k1 + 1, (fuel - 1) as nat) {
                            None => None,
                            Some((v, j2)) => {
                                let k2 = skip_ws(s, j2);
                                if 0 <= k2 < s.len() && s[k2] == ',' {
                                    match jp_mems(s, k2 + 1, (fuel - 1) as nat) {
                                        Some((ms, j3)) => Some((seq![(key, v)] + ms, j3)),
                                        None => None,
                                    }
                                } else if 0 <= k2 < s.len() && s[k2] == '}' {
                                    Some((seq![(key, v)], k2 + 1))
                                } else {
                                    None
                                }
                            },
                        }
                    }
                },
            }
        }
    }
}

/// The fuel that the entry point hands the value parser; more than any
/// text of this length can consume.
pub open spec fn jparse_fuel(s: Seq<char>) -> nat {
    (2 * s.len() + 4) as nat
}

/// The document denoted by `s`, when `s` is a single JSON document with
/// nothing but whitespace around it.
pub open spec fn jparse(s: Seq<char>) -> Option<JsonV> {
    match jp_value(s, 0, jparse_fuel(s)) {
        Some((v, j)) => if skip_ws(s, j) == s.len() {
            Some(v)
        } else {
            None
        },
        None => None,
    }
}

/// Relies on `char::from_u32`: a Unicode scalar value converts to exactly
/// that code point.
#[verifier::external_body]
pub(crate) fn char_from_scalar(v: u32) -> (r: char)
    requires
        v < 0xD800 || (0xE000 <= v <= 0x10FFFF),
    ensures
        r as u32 == v,
{
    match char::from_u32(v) {
        Some(c) => c,
        None => ' ',
    }
}

fn skip_ws_x(v: &Vec<char>, i: usize) -> (r: usize)
    requires
        i <= v@.len(),
    ensures
        r as int == skip_ws(v@, i as int),
        i <= r <= v@.len(),
{
    let mut k = i;
    while k < v.len() && (v[k] == ' ' || v[k] == '\t' || v[k] == '\n' || v[k] == '\r')
        invariant
            i <= k <= v@.len(),
            skip_ws(v@, i as int) == skip_ws(v@, k as int),
        decreases v@.len() - k,
    {
        k += 1;
    }
    k
}

fn digits_end_x(v: &Vec<char>, i: usize) -> (r: usize)
    requires
        i <= v@.len(),
    ensures
        r as int == digits_end(v@, i as int),
        i <= r <= v@.len(),
{
    let mut k = i;
    while k < v.len() && '0' <= v[k] && v[k] <= '9'
        invariant
            i <= k <= v@.len(),
            digits_end(v@, i as int) == digits_end(v@, k as int),
        decreases v@.len() - k,
    {
        k += 1;
    }
    k
}

fn hex_val_x(c: char) -> (r: Option<u32>)
    ensures
        r == hex_val(c),
{
    if '0' <= c && c <= '9' {
        Some(c as u32 - 48)
    } else if 'a' <= c && c <= 'f' {
        Some(c as u32 - 97 + 10)
    } else if 'A' <= c && c <= 'F' {
        Some(c as u32 - 65 + 10)
    } else {
        None
    }
}

fn hex4_x(v: &Vec<char>, i: usize) -> (r: Option<u32>)
    requires
        i <= v@.len(),
    ensures
        r == hex4(v@, i as int),
{
    if v.len() - i >= 4 {
        let h0 = hex_val_x(v[i]);
        let h1 = hex_val_x(v[i + 1]);
        let h2 = hex_val_x(v[i + 2]);
        let h3 = hex_val_x(v[i + 3]);
        match (h0, h1, h2, h3) {
            (Some(a), Some(b), Some(c), Some(d)) => Some(a * 0x1000 + b * 0x100 + c * 0x10 + d),
            _ => None,
        }
    } else {
        None
    }
}

fn lit4(v: &Vec<char>, k: usize, c0: char, c1: char, c2: char, c3: char) -> (r: bool)
    requires
        k <= v@.len(),
    ensures
        r == lit_at(v@, k as int, seq![c0, c1, c2, c3]),
{
    let ghost lit = seq![c0, c1, c2, c3];
    if v.len() - k >= 4 {
        let ok = v[k] == c0 && v[k + 1] == c1 && v[k + 2] == c2 && v[k + 3] == c3;
        proof {
            let sub = v@.subrange(k as int, k as int + 4);
            if ok {
                assert(sub =~= lit);
            } else {
                assert(sub[0] == v@[k as int]);
                assert(sub[1] == v@[k as int + 1]);
                assert(sub[2] == v@[k as int + 2]);
                assert(sub[3] == v@[k as int + 3]);
            }
        }
        ok
    } else {
        false
    }
}

fn lit5(v: &Vec<char>, k: usize, c0: char, c1: char, c2: char, c3: char, c4: char) -> (r: bool)
    requires
        k <= v@.len(),
    ensures
        r == lit_at(v@, k as int, seq![c0, c1, c2, c3, c4]),
{
    let ghost lit = seq![c0, c1, c2, c3, c4];
    if v.len() - k >= 5 {
        let ok = v[k] == c0 && v[k + 1] == c1 && v[k + 2] == c2 && v[k + 3] == c3 && v[k + 4]
            == c4;
        proof {
            let sub = v@.subrange(k as int, k as int + 5);
            if ok {
                assert(sub =~= lit);
            } else {
                assert(sub[0] == v@[k as int]);
                assert(sub[1] == v@[k as int + 1]);
                assert(sub[2] == v@[k as int + 2]);
                assert(sub[3] == v@[k as int + 3]);
                assert(sub[4] == v@[k as int + 4]);
            }
        }
        ok
    } else {
        false
    }
}

#[verifier::rlimit(100)]
fn jp_strbody_x(v: &Vec<char>, i: usize) -> (r: Option<(Vec<char>, usize)>)
    requires
        i <= v@.len(),
    ensures
        match r {
            Some(p) => jp_strbody(v@, i as int) == Some((p.0@, p.1 as int)) && i < p.1
                <= v@.len(),
            None => jp_strbody(v@, i as int) is None,
        },
    decreases v@.len() - i,
{
    if i >= v.len() {
        return None;
    }
    let c = v[i];
    if c == '"' {
        let empty: Vec<char> = Vec::new();
        proof {
            assert(jp_strbody(v@, i as int) == Some((Seq::<char>::empty(), i + 1)));
        }
        Some((empty, i + 1))
    } else if c == '\\' {
        if v.len() - i < 2 {
            return None;
        }
        let e = v[i + 1];
        if e == '"' || e == '\\' || e == '/' || e == 'b' || e == 'f' || e == 'n' || e == 'r' || e
            == 't' {
            let m: char = if e == 'b' {
                '\u{0008}'
            } else if e == 'f' {
                '\u{000c}'
            } else if e == 'n' {
                '\n'
            } else if e == 'r' {
                '\r'
            } else if e == 't' {
                '\t'
            } else {
                e
            };
            match jp_strbody_x(v, i + 2) {
                Some((rest, j)) => {
                    let mut rest = rest;
                    let ghost rest0 = rest@;
                    rest.insert(0, m);
                    proof {
                        assert(rest@ =~= seq![m] + rest0);
                    }
                    Some((rest, j))
                },
                None => None,
            }
        } else if e == 'u' {
            match hex4_x(v, i + 2) {
                None => None,
                Some(val) => {
                    if 0xD800 <= val && val <= 0xDBFF {
                        if v.len() - i >= 12 && v[i + 6] == '\\' && v[i + 7] == 'u' {
                            match hex4_x(v, i + 8) {
                                Some(lo) if 0xDC00 <= lo && lo <= 0xDFFF => {
                                    let scalar: u32 = 0x10000 + (val - 0xD800) * 0x400 + (lo
                                        - 0xDC00);
                                    let m = char_from_scalar(scalar);
                                    match jp_strbody_x(v, i + 12) {
                                        Some((rest, j)) => {
                                            let mut rest = rest;
                                            let ghost rest0 = rest@;
                                            rest.insert(0, m);
                                            proof {
                                                assert(rest@ =~= seq![m] + rest0);
                                            }
                                            Some((rest, j))
                                        },
                                        None => None,
                                    }
                                },
                                _ => None,
                            }
                        } else {
                            None
                        }
                    } else if 0xDC00 <= val && val <= 0xDFFF {
                        None
                    } else {
                        let m = char_from_scalar(val);
                        match jp_strbody_x(v, i + 6) {
                            Some((rest, j)) => {
                                let mut rest = rest;
                                let ghost rest0 = rest@;
                                rest.insert(0, m);
                                proof {
                                    assert(rest@ =~= seq![m] + rest0);
                                }
                                Some((rest, j))
                            },
                            None => None,
                        }
                    }
                },
            }
        } else {
            None
        }
    } else if ' ' > c {
        None
    } else {
        match jp_strbody_x(v, i + 1) {
            Some((rest, j)) => {
                let mut rest = rest;
                let ghost rest0 = rest@;
                rest.insert(0, c);
                proof {
                    assert(rest@ =~= seq![c] + rest0);
                }
                Some((rest, j))
            },
            None => None,
        }
    }
}

fn jp_number_x(v: &Vec<char>, i: usize) -> (r: Option<(Vec<char>, usize)>)
    requires
        i < v@.len(),
    ensures
        match r {
            Some(p) => jp_number(v@, i as int) == Some((p.0@, p.1 as int)) && i <= p.1
                <= v@.len(),
            None => jp_number(v@, i as int) is None,
        },
{
    proof {
        vstd::std_specs::vec::axiom_spec_len(v);
    }
    let j0: usize = if v[i] == '-' {
        i + 1
    } else {
        i
    };
    if !(j0 < v.len() && '0' <= v[j0] && v[j0] <= '9') {
        return None;
    }
    let j1: usize = if v[j0] == '0' {
        j0 + 1
    } else {
        digits_end_x(v, j0)
    };
    let j2: usize = if j1 < v.len() && v[j1] == '.' {
        let k = digits_end_x(v, j1 + 1);
        if k == j1 + 1 {
            return None;
        }
        k
    } else {
        j1
    };
    let j3: usize = if j2 < v.len() && (v[j2] == 'e' || v[j2] == 'E') {
        let k0: usize = if j2 + 1 < v.len() && (v[j2 + 1] == '+' || v[j2 + 1] == '-') {
            j2 + 2
        } else {
            j2 + 1
        };
        let k = digits_end_x(v, k0);
        if k == k0 {
            return None;
        }
        k
    } else {
        j2
    };
    let mut lex: Vec<char> = Vec::new();
    let mut t = i;
    while t < j3
        invariant
            i <= t <= j3 <= v@.len(),
            lex@ == v@.subrange(i as int, t as int),
        decreases j3 - t,
    {
        lex.push(v[t]);
        t += 1;
        proof {
            assert(lex@ =~= v@.subrange(i as int, t as int));
        }
    }
    Some((lex, j3))
}

fn jp_value_x(v: &Vec<char>, i: usize, fuel: u128) -> (r: Option<(Json, usize)>)
    requires
        i <= v@.len(),
    ensures
        match r {
            Some(p) => jp_value(v@, i as int, fuel as nat) == Some((jv(p.0), p.1 as int)) && i
                <= p.1 <= v@.len(),
            None => jp_value(v@, i as int, fuel as nat) is None,
        },
    decreases fuel, 0int,
{
    if fuel == 0 {
        return None;
    }
    let k = skip_ws_x(v, i);
    if k >= v.len() {
        return None;
    }
    let c = v[k];
    if c == 'n' {
        if lit4(v, k, 'n', 'u', 'l', 'l') {
            Some((Json::Null, k + 4))
        } else {
            None
        }
    } else if c == 't' {
        if lit4(v, k, 't', 'r', 'u', 'e') {
            Some((Json::Bool(true), k + 4))
        } else {
            None
        }
    } else if c == 'f' {
        if lit5(v, k, 'f', 'a', 'l', 's', 'e') {
            Some((Json::Bool(false), k + 5))
        } else {
            None
        }
    } else if c == '"' {
        match jp_strbody_x(v, k + 1) {
            Some((cs, j)) => {
                let s = chars_to_string(&cs);
                Some((Json::Str(s), j))
            },
            None => None,
        }
    } else if c == '[' {
        let k2 = skip_ws_x(v, k + 1);
        if k2 < v.len() && v[k2] == ']' {
            let items: Vec<Json> = Vec::new();
            proof {
                assert(jarr_view(items@) =~= Seq::<JsonV>::empty());
            }
            Some((Json::Arr(items), k2 + 1))
        } else {
            match jp_items_x(v, k + 1, fuel - 1) {
                Some((items, j)) => Some((Json::Arr(items), j)),
                None => None,
            }
        }
    } else if c == '{' {
        let k2 = skip_ws_x(v, k + 1);
        if k2 < v.len() && v[k2] == '}' {
            let members: Vec<(String, Json)> = Vec::new();
            proof {
                assert(jobj_view(members@) =~= Seq::<(Seq<char>, JsonV)>::empty());
            }
            Some((Json::Obj(members), k2 + 1))
        } else {
            match jp_mems_x(v, k + 1, fuel - 1) {
                Some((members, j)) => Some((Json::Obj(members), j)),
                None => None,
            }
        }
    } else if c == '-' || ('0' <= c && c <= '9') {
        match jp_number_x(v, k) {
            Some((lex, j)) => {
                let s = chars_to_string(&lex);
                Some((Json::Num(s), j))
            },
            None => None,
        }
    } else {
        None
    }
}

fn jp_items_x(v: &Vec<char>, i: usize, fuel: u128) -> (r: Option<(Vec<Json>, usize)>)
    requires
        i <= v@.len(),
    ensures
        match r {
            Some(p) => jp_items(v@, i as int, fuel as nat) == Some((jarr_view(p.0@), p.1 as int))
                && i <= p.1 <= v@.len(),
            None => jp_items(v@, i as int, fuel as nat) is None,
        },
    decreases fuel, 1int,
{
    if fuel == 0 {
        return None;
    }
    match jp_value_x(v, i, fuel - 1) {
        None => None,
        Some((val, j)) => {
            let k = skip_ws_x(v, j);
            if k < v.len() && v[k] == ',' {
                match jp_items_x(v, k + 1, fuel - 1) {
                    Some((items, j2)) => {
                        let ghost rest = items@;
                        let mut items = items;
                        items.insert(0, val);
                        proof {
                            assert(jarr_view(items@) =~= seq![jv(val)] + jarr_view(rest));
                        }
                        Some((items, j2))
                    },
                    None => None,
                }
            } else if k < v.len() && v[k] == ']' {
                let mut items: Vec<Json> = Vec::new();
                items.push(val);
                proof {
                    assert(jarr_view(items@) =~= seq![jv(val)]);
                }
                Some((items, k + 1))
            } else {
                None
            }
        },
    }
}

fn jp_mems_x(v: &Vec<char>, i: usize, fuel: u128) -> (r: Option<(Vec<(String, Json)>, usize)>)
    requires
        i <= v@.len(),
    ensures
        match r {
            Some(p) => jp_mems(v@, i as int, fuel as nat) == Some((jobj_view(p.0@), p.1 as int))
                && i <= p.1 <= v@.len(),
            None => jp_mems(v@, i as int, fuel as nat) is None,
        },
    decreases fuel, 1int,
{
    if fuel == 0 {
        return None;
    }
    let k0 = skip_ws_x(v, i);
    if !(k0 < v.len() && v[k0] == '"') {
        return None;
    }
    match jp_strbody_x(v, k0 + 1) {
        None => None,
        Some((key_chars, j)) => {
            let key = chars_to_string(&key_chars);
            let k1 = skip_ws_x(v, j);
            if !(k1 < v.len() && v[k1] == ':') {
                return None;
            }
            match jp_value_x(v, k1 + 1, fuel - 1) {
                None => None,
                Some((val, j2)) => {
                    let k2 = skip_ws_x(v, j2);
                    if k2 < v.len() && v[k2] == ',' {
                        match jp_mems_x(v, k2 + 1, fuel - 1) {
                            Some((members, j3)) => {
                                let ghost rest = members@;
                                let mut members = members;
                                members.insert(0, (key, val));
                                proof {
                                    assert(jobj_view(members@) =~= seq![(key_chars@, jv(val))]
                                        + jobj_view(rest));
                                }
                                Some((members, j3))
                            },
                            None => None,
                        }
                    } else if k2 < v.len() && v[k2] == '}' {
                        let mut members: Vec<(String, Json)> = Vec::new();
                        members.push((key, val));
                        proof {
                            assert(jobj_view(members@) =~= seq![(key_chars@, jv(val))]);
                        }
                        Some((members, k2 + 1))
                    } else {
                        None
                    }
                },
            }
        },
    }
}

/// Parse a text as a single JSON document.
pub fn parse_json(s: &str) -> (r: Option<Json>)
    ensures
        match r {
            Some(j) => jparse(s@) == Some(jv(j)),
            None => jparse(s@) is None,
        },
{
    let chars = crate::chars::str_chars(s);
    let fuel: u128 = 2 * (chars.len() as u128) + 4;
    proof {
        assert(fuel as nat == jparse_fuel(s@));
    }
    match jp_value_x(&chars, 0, fuel) {
        Some((j, k)) => {
            let e = skip_ws_x(&chars, k);
            if e == chars.len() {
                Some(j)
            } else {
                None
            }
        },
        None => None,
    }
}

proof fn lemma_hex_of_nibble(d: nat)
    requires
        d < 16,
    ensures
        hex_val(crate::json::hex_char(d)) == Some(d as u32),
{
}

/// The writer's `\u00XX` digits read back as the control character.
proof fn lemma_hex4_of_control(full: Seq<char>, i: int, c: char)
    requires
        (c as int) < 32,
        0 <= i,
        i + 4 <= full.len(),
        full[i] == '0',
        full[i + 1] == '0',
        full[i + 2] == crate::json::hex_char((c as int / 16) as nat),
        full[i + 3] == crate::json::hex_char((c as int % 16) as nat),
    ensures
        hex4(full, i) == Some(c as u32),
{
    let hi = (c as int / 16) as nat;
    let lo = (c as int % 16) as nat;
    assert(0 <= c as int);
    assert(hi < 2 && lo < 16);
    assert(hex_val('0') == Some(0u32));
    lemma_hex_of_nibble(hi);
    lemma_hex_of_nibble(lo);
    assert(hi * 16 + lo == c as int);
    assert(hex4(full, i) == Some((hi * 16 + lo) as u32));
    assert((hi * 16 + lo) as u32 == c as u32);
}

/// Round trip across the string escaping: the body the writer emits for
/// any text, followed by the closing quote, reads back as exactly that
/// text. This is the text-layer counterpart, for string literals, of the
/// document-level round trip.
#[verifier::rlimit(100)]
pub proof fn lemma_escaped_string_reads_back(s: Seq<char>, pre: Seq<char>, rest: Seq<char>)
    ensures
        jp_strbody(pre + crate::json::jser_str(s) + seq!['"'] + rest, pre.len() as int)
            == Some((s, pre.len() + crate::json::jser_str(s).len() + 1int)),
    decreases s.len(),
{
    let full = pre + crate::json::jser_str(s) + seq!['"'] + rest;
    let i = pre.len() as int;
    if s.len() == 0 {
        assert(crate::json::jser_str(s) =~= Seq::<char>::empty());
        assert(full[i] == '"');
        assert(jp_strbody(full, i) == Some((Seq::<char>::empty(), i + 1)));
        assert(Seq::<char>::empty() =~= s);
    } else {
        let c = s[0];
        let esc = crate::json::esc_char(c);
        let s1 = s.skip(1);
        assert(crate::json::jser_str(s) == esc + crate::json::jser_str(s1));
        let pre2 = pre + esc;
        let full2 = pre2 + crate::json::jser_str(s1) + seq!['"'] + rest;
        assert(full =~= full2);
        lemma_escaped_string_reads_back(s1, pre2, rest);
        assert(jp_strbody(full, pre2.len() as int) == Some(
            (s1, pre2.len() + crate::json::jser_str(s1).len() + 1int),
        ));
        assert(seq![c] + s1 =~= s);
        if c == '"' {
            assert(esc =~= seq!['\\', '"']);
            assert(full[i] == '\\' && full[i + 1] == '"');
            assert(pre2.len() == i + 2);
            assert(jp_strbody(full, i) == strbody_cons(c, jp_strbody(full, i + 2)));
        } else if c == '\\' {
            assert(esc =~= seq!['\\', '\\']);
            assert(full[i] == '\\' && full[i + 1] == '\\');
            assert(pre2.len() == i + 2);
            assert(jp_strbody(full, i) == strbody_cons(c, jp_strbody(full, i + 2)));
        } else if (c as int) < 32 {
            let hi = (c as int / 16) as nat;
            let lo = (c as int % 16) as nat;
            assert(esc =~= seq!['\\', 'u', '0', '0', crate::json::hex_char(hi), crate::json::hex_char(lo)]);
            assert(full[i] == '\\' && full[i + 1] == 'u');
            assert(full[i + 2] == '0' && full[i + 3] == '0');
            assert(full[i + 4] == crate::json::hex_char(hi) && full[i + 5]
                == crate::json::hex_char(lo));
            lemma_hex4_of_control(full, i + 2, c);
            assert(pre2.len() == i + 6);
            assert(hex4(full, i + 2) == Some(c as u32));
            vstd::utf8::char_u32_cast(c, c as u32);
            assert((c as u32) as char == c);
            assert((c as u32) < 32);
            assert(jp_strbody(full, i) == strbody_cons(c, jp_strbody(full, i + 6)));
        } else {
            assert(esc =~= seq![c]);
            assert(full[i] == c);
            assert(pre2.len() == i + 1);
            assert(!(' ' > c));
            assert(jp_strbody(full, i) == strbody_cons(c, jp_strbody(full, i + 1)));
        }
        assert(jp_strbody(full, i) == Some(
            (s, pre.len() + crate::json::jser_str(s).len() + 1int),
        ));
    }
}

} // verus!
