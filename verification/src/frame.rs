//! Wire framing: reading header lines until the blank line, and writing
//! the `Content-Length` frame around an outgoing body.
//!
//! Only the `Content-Length` header is interpreted; other headers are
//! ignored. A line without a colon, or a `Content-Length` value that is
//! not a non-negative integer, is a framing fault for the message. On the
//! write side the header is emitted exactly once, with nothing around the
//! frame.

use vstd::prelude::*;

verus! {

use crate::num::{dec_rep, all_digits, dec_val, is_digit, u64_to_dec, parse_u32_dec};
use crate::json_parse::{is_ws, skip_ws};
use crate::chars::{str_chars, chars_eq_str, chars_to_string};
use vstd::string::StringExecFns;

broadcast use vstd::std_specs::vec::group_vec_axioms, vstd::slice::group_slice_axioms;

/// The position of the first colon at or after `i`, if any.
pub open spec fn first_colon(s: Seq<char>, i: int) -> Option<int>
    decreases s.len() - i,
{
    if 0 <= i < s.len() {
        if s[i] == ':' {
            Some(i)
        } else {
            first_colon(s, i + 1)
        }
    } else {
        None
    }
}

/// The length that remains when trailing whitespace is dropped.
pub open spec fn rtrim_end(s: Seq<char>) -> int
    decreases s.len(),
{
    if s.len() > 0 && is_ws(s.last()) {
        rtrim_end(s.drop_last())
    } else {
        s.len() as int
    }
}

/// The text with surrounding whitespace removed.
pub open spec fn trim_spec(s: Seq<char>) -> Seq<char> {
    let a = skip_ws(s, 0);
    let b = rtrim_end(s);
    if a <= b {
        s.subrange(a, b)
    } else {
        Seq::empty()
    }
}

/// What one header line does to the reader: it ends the headers, records
/// a content length, changes nothing, or is a framing fault.
pub enum HeaderStep {
    More(Option<u32>),
    End,
    Bad,
}

/// The effect of one header line on the recorded content length. An empty
/// read or the bare blank line ends the headers; a line without a colon is
/// a fault; a `Content-Length` line records its value when that value,
/// with surrounding whitespace dropped, is a decimal integer that fits in
/// 32 bits, and is a fault otherwise; any other header is ignored.
pub open spec fn header_step(line: Seq<char>, cl: Option<u32>) -> HeaderStep {
    if line.len() == 0 || line == "\r\n"@ {
        HeaderStep::End
    } else {
        match first_colon(line, 0) {
            None => HeaderStep::Bad,
            Some(c) => {
                let name = line.subrange(0, c);
                let value = line.subrange(c + 1, line.len() as int);
                if name == "Content-Length"@ {
                    let t = trim_spec(value);
                    if t.len() >= 1 && all_digits(t) && dec_val(t) <= u32::MAX {
                        HeaderStep::More(Some(dec_val(t) as u32))
                    } else {
                        HeaderStep::Bad
                    }
                } else {
                    HeaderStep::More(cl)
                }
            },
        }
    }
}

/// Reads the header block of one message, one line at a time.
pub struct HeaderReader {
    content_length: Option<u32>,
}

/// What the caller should do after feeding a line.
pub enum HeaderFeed {
    More,
    End,
    Bad,
}

impl HeaderReader {
    pub closed spec fn spec_content_length(&self) -> Option<u32> {
        self.content_length
    }

    pub fn new() -> (r: Self)
        ensures
            r.spec_content_length() is None,
    {
        HeaderReader { content_length: None }
    }

    /// Feed one header line, exactly as read, line ending included.
    pub fn feed_line(&mut self, line: &str) -> (r: HeaderFeed)
        ensures
            match header_step(line@, old(self).spec_content_length()) {
                HeaderStep::End => r == HeaderFeed::End && final(self).spec_content_length()
                    == old(self).spec_content_length(),
                HeaderStep::Bad => r == HeaderFeed::Bad,
                HeaderStep::More(ncl) => r == HeaderFeed::More
                    && final(self).spec_content_length() == ncl,
            },
    {
        let chars = str_chars(line);
        if chars.len() == 0 {
            return HeaderFeed::End;
        }
        if chars_eq_str(&chars, "\r\n") {
            return HeaderFeed::End;
        }
        let colon = match find_colon(&chars) {
            Some(c) => c,
            None => {
                return HeaderFeed::Bad;
            },
        };
        let mut name: Vec<char> = Vec::new();
        let mut i: usize = 0;
        while i < colon
            invariant
                i <= colon <= chars@.len(),
                name@ == chars@.subrange(0, i as int),
            decreases colon - i,
        {
            name.push(chars[i]);
            i += 1;
            proof {
                assert(name@ =~= chars@.subrange(0, i as int));
            }
        }
        if chars_eq_str(&name, "Content-Length") {
            let mut value: Vec<char> = Vec::new();
            let mut j: usize = colon + 1;
            while j < chars.len()
                invariant
                    colon + 1 <= j <= chars@.len(),
                    value@ == chars@.subrange(colon + 1, j as int),
                decreases chars@.len() - j,
            {
                value.push(chars[j]);
                j += 1;
                proof {
                    assert(value@ =~= chars@.subrange(colon + 1, j as int));
                }
            }
            proof {
                assert(value@ =~= chars@.subrange(colon + 1, chars@.len() as int));
            }
            let trimmed = trim_chars(&value);
            match parse_u32_dec(&trimmed) {
                Some(v) => {
                    self.content_length = Some(v);
                    HeaderFeed::More
                },
                None => HeaderFeed::Bad,
            }
        } else {
            HeaderFeed::More
        }
    }

    /// The content length the headers carried, if one was recorded;
    /// absence is the framing fault of a missing `Content-Length`.
    pub fn finish(&self) -> (r: Option<u32>)
        ensures
            r == self.spec_content_length(),
    {
        match self.content_length {
            Some(v) => Some(v),
            None => None,
        }
    }
}

fn find_colon(chars: &Vec<char>) -> (r: Option<usize>)
    ensures
        match r {
            Some(c) => first_colon(chars@, 0) == Some(c as int) && c < chars@.len(),
            None => first_colon(chars@, 0) is None,
        },
{
    let mut i: usize = 0;
    while i < chars.len()
        invariant
            i <= chars@.len(),
            first_colon(chars@, 0) == first_colon(chars@, i as int),
        decreases chars@.len() - i,
    {
        if chars[i] == ':' {
            return Some(i);
        }
        i += 1;
    }
    None
}

fn trim_chars(v: &Vec<char>) -> (r: Vec<char>)
    ensures
        r@ == trim_spec(v@),
{
    let mut a: usize = 0;
    while a < v.len() && (v[a] == ' ' || v[a] == '\t' || v[a] == '\n' || v[a] == '\r')
        invariant
            a <= v@.len(),
            skip_ws(v@, 0) == skip_ws(v@, a as int),
        decreases v@.len() - a,
    {
        a += 1;
    }
    proof {
        assert(skip_ws(v@, a as int) == a as int);
    }
    let mut b: usize = v.len();
    proof {
        assert(v@.subrange(0, v@.len() as int) =~= v@);
    }
    while b > 0 && (v[b - 1] == ' ' || v[b - 1] == '\t' || v[b - 1] == '\n' || v[b - 1] == '\r')
        invariant
            b <= v@.len(),
            rtrim_end(v@) == rtrim_end(v@.subrange(0, b as int)),
        decreases b,
    {
        b -= 1;
        proof {
            assert(v@.subrange(0, b + 1).drop_last() =~= v@.subrange(0, b as int));
        }
    }
    proof {
        assert(rtrim_end(v@.subrange(0, b as int)) == b as int) by {
            if b > 0 {
                assert(v@.subrange(0, b as int).last() == v@[b - 1]);
            }
        }
    }
    let mut r: Vec<char> = Vec::new();
    if a < b {
        let mut t = a;
        while t < b
            invariant
                a <= t <= b <= v@.len(),
                r@ == v@.subrange(a as int, t as int),
            decreases b - t,
        {
            r.push(v[t]);
            t += 1;
            proof {
                assert(r@ =~= v@.subrange(a as int, t as int));
            }
        }
    } else {
        proof {
            assert(r@ =~= Seq::<char>::empty());
        }
    }
    proof {
        if a < b {
        } else {
            if a as int <= rtrim_end(v@) {
                assert(v@.subrange(a as int, rtrim_end(v@)) =~= Seq::<char>::empty());
            }
        }
    }
    r
}

/// The UTF-8 byte length of a text.
pub open spec fn byte_len_of(s: Seq<char>) -> nat {
    vstd::utf8::encode_utf8(s).len()
}

/// The framed form of a body: the `Content-Length` header carries the
/// exact UTF-8 byte length of the body, not its character count.
pub open spec fn frame_spec(body: Seq<char>) -> Seq<char> {
    "Content-Length: "@ + dec_rep(byte_len_of(body)) + "\r\n\r\n"@ + body
}

/// Frame one outgoing body.
pub fn frame_message(body: &str) -> (r: String)
    ensures
        r@ == frame_spec(body@),
{
    let bytes = body.as_bytes();
    let n: usize = bytes.len();
    proof {
        assert(bytes@ == vstd::utf8::encode_utf8(body@));
    }
    let digits = chars_to_string(&u64_to_dec(n as u64));
    let r = String::from_str("Content-Length: ").concat(digits.as_str()).concat(
        "\r\n\r\n",
    ).concat(body);
    proof {
        assert(n as nat == byte_len_of(body@));
        assert(r@ =~= frame_spec(body@));
    }
    r
}

/// Round trip across the framing layer: a written frame is exactly the
/// `Content-Length` header line, the blank line, and the body; and
/// feeding those two lines to a fresh header reader records exactly the
/// body's byte length.
pub proof fn lemma_frame_reads_back(body: Seq<char>)
    requires
        byte_len_of(body) <= u32::MAX,
    ensures
        ({
            let n = byte_len_of(body);
            let line = "Content-Length: "@ + dec_rep(n) + "\r\n"@;
            &&& frame_spec(body) == line + "\r\n"@ + body
            &&& header_step(line, None) == HeaderStep::More(Some(n as u32))
            &&& header_step("\r\n"@, Some(n as u32)) == HeaderStep::End
        }),
{
    let n = byte_len_of(body);
    let digits = dec_rep(n);
    let line = "Content-Length: "@ + digits + "\r\n"@;
    crate::num::lemma_dec_rep_digits(n);
    crate::num::lemma_dec_roundtrip(n);
    reveal_strlit("Content-Length: ");
    reveal_strlit("Content-Length");
    reveal_strlit("\r\n");
    reveal_strlit("\r\n\r\n");
    assert(frame_spec(body) =~= line + "\r\n"@ + body);
    assert(line.len() >= 19);
    assert(line != "\r\n"@) by {
        assert(line.len() != "\r\n"@.len());
    }
    // the colon stands at position 14 and nowhere earlier
    assert(forall|i: int| 0 <= i < 16 ==> line[i] == "Content-Length: "@[i]);
    reveal_with_fuel(first_colon, 18);
    assert(first_colon(line, 0) == Some(14int));
    let name = line.subrange(0, 14);
    assert(name =~= "Content-Length"@);
    let value = line.subrange(15, line.len() as int);
    assert(value =~= seq![' '] + digits + "\r\n"@);
    // the value trims to the digits alone
    reveal_with_fuel(skip_ws, 3);
    assert(is_digit(digits[0]));
    assert(!is_ws(value[1]));
    assert(skip_ws(value, 0) == 1);
    reveal_with_fuel(rtrim_end, 4);
    let v1 = value.drop_last();
    let v2 = v1.drop_last();
    assert(value.last() == '\n' && is_ws(value.last()));
    assert(v1 =~= seq![' '] + digits + seq!['\r']);
    assert(v1.last() == '\r' && is_ws(v1.last()));
    assert(v2 =~= seq![' '] + digits);
    assert(v2.last() == digits.last());
    assert(is_digit(v2.last()) && !is_ws(v2.last()));
    assert(rtrim_end(value) == 1 + digits.len());
    let t = trim_spec(value);
    assert(t =~= digits);
    assert(t.len() >= 1 && all_digits(t) && dec_val(t) == n);
    assert(header_step(line, None) == HeaderStep::More(Some(n as u32)));
}

} // verus!
