//! The JSON document model and the serializer for outgoing messages.
//!
//! Number lexemes are kept as text: the protocol only ever interprets the
//! integral ones (ids, positions, lengths), and everything else is carried
//! through unchanged.

use vstd::prelude::*;

verus! {

use crate::num::digit_char;
use vstd::string::StrSliceExecFns;

broadcast use vstd::std_specs::vec::group_vec_axioms;

/// A JSON document. Object members keep their textual order.
pub enum Json {
    Null,
    Bool(bool),
    Num(String),
    Str(String),
    Arr(Vec<Json>),
    Obj(Vec<(String, Json)>),
}

/// The mathematical shape of a JSON document.
pub enum JsonV {
    Null,
    Bool(bool),
    Num(Seq<char>),
    Str(Seq<char>),
    Arr(Seq<JsonV>),
    Obj(Seq<(Seq<char>, JsonV)>),
}

pub open spec fn jarr_view(items: Seq<Json>) -> Seq<JsonV>
    decreases items,
{
    Seq::new(
        items.len(),
        |i: int|
            if 0 <= i < items.len() {
                jv(items[i])
            } else {
                JsonV::Null
            },
    )
}

pub open spec fn jobj_view(members: Seq<(String, Json)>) -> Seq<(Seq<char>, JsonV)>
    decreases members,
{
    Seq::new(
        members.len(),
        |i: int|
            if 0 <= i < members.len() {
                (members[i].0@, jv(members[i].1))
            } else {
                (Seq::<char>::empty(), JsonV::Null)
            },
    )
}

pub open spec fn jv(j: Json) -> JsonV
    decreases j,
{
    match j {
        Json::Null => JsonV::Null,
        Json::Bool(b) => JsonV::Bool(b),
        Json::Num(s) => JsonV::Num(s@),
        Json::Str(s) => JsonV::Str(s@),
        Json::Arr(items) => JsonV::Arr(jarr_view(items@)),
        Json::Obj(members) => JsonV::Obj(jobj_view(members@)),
    }
}

impl View for Json {
    type V = JsonV;

    open spec fn view(&self) -> JsonV {
        jv(*self)
    }
}

/// Look a key up among the members of a JSON object; the first occurrence
/// wins.
pub open spec fn jlookup(members: Seq<(Seq<char>, JsonV)>, key: Seq<char>) -> Option<JsonV>
    decreases members.len(),
{
    if members.len() == 0 {
        None
    } else if members[0].0 == key {
        Some(members[0].1)
    } else {
        jlookup(members.skip(1), key)
    }
}

pub open spec fn hex_char(d: nat) -> char {
    if d < 10 {
        digit_char(d)
    } else {
        ('a' as int + d - 10) as char
    }
}

/// The serialized form of one string character: the escapes the writer
/// emits are `\"`, `\\`, and `\u00XX` for control characters.
pub open spec fn esc_char(c: char) -> Seq<char> {
    if c == '"' {
        seq!['\\', '"']
    } else if c == '\\' {
        seq!['\\', '\\']
    } else if (c as int) < 32 {
        seq!['\\', 'u', '0', '0', hex_char((c as int / 16) as nat), hex_char(
            (c as int % 16) as nat,
        )]
    } else {
        seq![c]
    }
}

pub open spec fn jser_str(s: Seq<char>) -> Seq<char>
    decreases s.len(),
{
    if s.len() == 0 {
        Seq::empty()
    } else {
        esc_char(s[0]) + jser_str(s.skip(1))
    }
}

/// The serialized form of a JSON document: no whitespace, object members
/// in their stored order.
pub open spec fn jser(v: JsonV) -> Seq<char>
    decreases v,
{
    match v {
        JsonV::Null => seq!['n', 'u', 'l', 'l'],
        JsonV::Bool(b) => if b {
            seq!['t', 'r', 'u', 'e']
        } else {
            seq!['f', 'a', 'l', 's', 'e']
        },
        JsonV::Num(s) => s,
        JsonV::Str(s) => seq!['"'] + jser_str(s) + seq!['"'],
        JsonV::Arr(items) => seq!['['] + jser_items(items) + seq![']'],
        JsonV::Obj(members) => seq!['{'] + jser_members(members) + seq!['}'],
    }
}

pub open spec fn jser_items(items: Seq<JsonV>) -> Seq<char>
    decreases items,
{
    if items.len() == 0 {
        Seq::empty()
    } else if items.len() == 1 {
        jser(items[0])
    } else {
        jser(items[0]) + seq![','] + jser_items(items.skip(1))
    }
}

pub open spec fn jser_members(members: Seq<(Seq<char>, JsonV)>) -> Seq<char>
    decreases members,
{
    if members.len() == 0 {
        Seq::empty()
    } else {
        let head = seq!['"'] + jser_str(members[0].0) + seq!['"', ':'] + jser(members[0].1);
        if members.len() == 1 {
            head
        } else {
            head + seq![','] + jser_members(members.skip(1))
        }
    }
}

/// Serialize one string character into the output, escaping as needed.
fn write_esc_char(c: char, out: &mut Vec<char>)
    ensures
        final(out)@ == old(out)@ + esc_char(c),
{
    if c == '"' {
        out.push('\\');
        out.push('"');
    } else if c == '\\' {
        out.push('\\');
        out.push('\\');
    } else if (c as u32) < 32 {
        out.push('\\');
        out.push('u');
        out.push('0');
        out.push('0');
        let hi: u32 = c as u32 / 16;
        let lo: u32 = c as u32 % 16;
        let hic: char = if hi < 10 {
            (48 + hi as u8) as char
        } else {
            (97 + (hi as u8 - 10)) as char
        };
        let loc: char = if lo < 10 {
            (48 + lo as u8) as char
        } else {
            (97 + (lo as u8 - 10)) as char
        };
        out.push(hic);
        out.push(loc);
        proof {
            assert(hic == hex_char((c as int / 16) as nat));
            assert(loc == hex_char((c as int % 16) as nat));
            assert(out@ =~= old(out)@ + esc_char(c));
        }
    } else {
        out.push(c);
        proof {
            assert(out@ =~= old(out)@ + esc_char(c));
        }
    }
    proof {
        assert(out@ =~= old(out)@ + esc_char(c));
    }
}

/// Serialize the body of a string, from character `from` on.
fn write_str_from(s: &str, from: usize, out: &mut Vec<char>)
    requires
        from <= s@.len(),
    ensures
        final(out)@ == old(out)@ + jser_str(s@.skip(from as int)),
    decreases s@.len() - from,
{
    if from < s.unicode_len() {
        let c = s.get_char(from);
        write_esc_char(c, out);
        write_str_from(s, from + 1, out);
        proof {
            let tail = s@.skip(from as int);
            assert(tail[0] == c);
            assert(tail.skip(1) =~= s@.skip(from + 1));
            assert(out@ =~= old(out)@ + jser_str(s@.skip(from as int)));
        }
    } else {
        proof {
            assert(s@.skip(from as int) =~= Seq::<char>::empty());
        }
    }
}

/// Serialize a whole string, quotes included.
fn write_str(s: &str, out: &mut Vec<char>)
    ensures
        final(out)@ == old(out)@ + seq!['"'] + jser_str(s@) + seq!['"'],
{
    out.push('"');
    write_str_from(s, 0, out);
    out.push('"');
    proof {
        assert(s@.skip(0) =~= s@);
        assert(out@ =~= old(out)@ + seq!['"'] + jser_str(s@) + seq!['"']);
    }
}

/// Serialize a document into `out`.
pub fn write_json_into(j: &Json, out: &mut Vec<char>)
    ensures
        final(out)@ == old(out)@ + jser(j@),
    decreases *j, 0int,
{
    match j {
        Json::Null => {
            out.push('n');
            out.push('u');
            out.push('l');
            out.push('l');
            proof {
                assert(out@ =~= old(out)@ + jser(j@));
            }
        },
        Json::Bool(b) => {
            if *b {
                out.push('t');
                out.push('r');
                out.push('u');
                out.push('e');
            } else {
                out.push('f');
                out.push('a');
                out.push('l');
                out.push('s');
                out.push('e');
            }
            proof {
                assert(out@ =~= old(out)@ + jser(j@));
            }
        },
        Json::Num(s) => {
            write_lexeme(s, out);
        },
        Json::Str(s) => {
            write_str(s.as_str(), out);
            proof {
                assert(out@ =~= old(out)@ + jser(j@));
            }
        },
        Json::Arr(items) => {
            out.push('[');
            write_items_from(items, 0, out);
            out.push(']');
            proof {
                assert(items@.skip(0) =~= items@);
                assert(jarr_view(items@.skip(0)) =~= jv(*j)->Arr_0);
                assert(out@ =~= old(out)@ + jser(j@));
            }
        },
        Json::Obj(members) => {
            out.push('{');
            write_members_from(members, 0, out);
            out.push('}');
            proof {
                assert(members@.skip(0) =~= members@);
                assert(jobj_view(members@.skip(0)) =~= jv(*j)->Obj_0);
                assert(out@ =~= old(out)@ + jser(j@));
            }
        },
    }
}

/// Copy a number lexeme into the output unchanged.
fn write_lexeme(s: &String, out: &mut Vec<char>)
    ensures
        final(out)@ == old(out)@ + s@,
{
    let n = s.as_str().unicode_len();
    let mut i: usize = 0;
    while i < n
        invariant
            n == s@.len(),
            i <= n,
            out@ == old(out)@ + s@.subrange(0, i as int),
        decreases n - i,
    {
        out.push(s.as_str().get_char(i));
        i += 1;
        proof {
            assert(out@ =~= old(out)@ + s@.subrange(0, i as int));
        }
    }
    proof {
        assert(s@.subrange(0, s@.len() as int) =~= s@);
    }
}

fn write_items_from(items: &Vec<Json>, from: usize, out: &mut Vec<char>)
    requires
        from <= items@.len(),
    ensures
        final(out)@ == old(out)@ + jser_items(jarr_view(items@.skip(from as int))),
    decreases *items, items@.len() - from,
{
    if from < items.len() {
        write_json_into(&items[from], out);
        proof {
            let tail = jarr_view(items@.skip(from as int));
            assert(tail[0] == jv(items@[from as int]));
        }
        if from + 1 < items.len() {
            out.push(',');
            write_items_from(items, from + 1, out);
            proof {
                let tail = jarr_view(items@.skip(from as int));
                assert(tail.skip(1) =~= jarr_view(items@.skip(from + 1)));
                assert(tail.len() >= 2);
                assert(out@ =~= old(out)@ + jser_items(tail));
            }
        } else {
            proof {
                let tail = jarr_view(items@.skip(from as int));
                assert(tail.len() == 1);
                assert(out@ =~= old(out)@ + jser_items(tail));
            }
        }
    } else {
        proof {
            assert(jarr_view(items@.skip(from as int)).len() == 0);
        }
    }
}

fn write_members_from(members: &Vec<(String, Json)>, from: usize, out: &mut Vec<char>)
    requires
        from <= members@.len(),
    ensures
        final(out)@ == old(out)@ + jser_members(jobj_view(members@.skip(from as int))),
    decreases *members, members@.len() - from,
{
    if from < members.len() {
        write_str(members[from].0.as_str(), out);
        out.push(':');
        write_json_into(&members[from].1, out);
        proof {
            let tail = jobj_view(members@.skip(from as int));
            assert(tail[0] == (members@[from as int].0@, jv(members@[from as int].1)));
        }
        if from + 1 < members.len() {
            out.push(',');
            write_members_from(members, from + 1, out);
            proof {
                let tail = jobj_view(members@.skip(from as int));
                assert(tail.skip(1) =~= jobj_view(members@.skip(from + 1)));
                assert(tail.len() >= 2);
                assert(out@ =~= old(out)@ + jser_members(tail));
            }
        } else {
            proof {
                let tail = jobj_view(members@.skip(from as int));
                assert(tail.len() == 1);
                assert(out@ =~= old(out)@ + jser_members(tail));
            }
        }
    } else {
        proof {
            assert(jobj_view(members@.skip(from as int)).len() == 0);
        }
    }
}

/// Serialize a document to a string.
pub fn write_json(j: &Json) -> (r: String)
    ensures
        r@ == jser(j@),
{
    let mut out: Vec<char> = Vec::new();
    write_json_into(j, &mut out);
    crate::chars::chars_to_string(&out)
}

} // verus!
