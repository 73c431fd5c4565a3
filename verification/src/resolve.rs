//! Companion-file discovery: derive the candidate typed-source files for a
//! markup file by naming convention, and decide the definition outcome
//! from the grammar stages' findings.

use vstd::prelude::*;

verus! {

use crate::chars::{str_chars, chars_to_string};
use crate::out::{LSError, LSMessageResponseBody, LSMessageResponseLocation, LsTypePosition, LsTypeRange};
use vstd::string::{StrSliceExecFns, StringExecFns};

broadcast use vstd::std_specs::vec::group_vec_axioms;

/// Strip a literal prefix from a character sequence, if it is present.
pub open spec fn strip_prefix_spec(s: Seq<char>, pre: Seq<char>) -> Option<Seq<char>> {
    if pre.len() <= s.len() && s.subrange(0, pre.len() as int) == pre {
        Some(s.subrange(pre.len() as int, s.len() as int))
    } else {
        None
    }
}

/// Strip a literal suffix from a character sequence, if it is present.
pub open spec fn strip_suffix_spec(s: Seq<char>, suf: Seq<char>) -> Option<Seq<char>> {
    if suf.len() <= s.len() && s.subrange(s.len() - suf.len(), s.len() as int) == suf {
        Some(s.subrange(0, s.len() - suf.len()))
    } else {
        None
    }
}

/// The index of the last slash, if any.
pub open spec fn last_slash(s: Seq<char>) -> Option<int>
    decreases s.len(),
{
    if s.len() == 0 {
        None
    } else if s.last() == '/' {
        Some(s.len() - 1)
    } else {
        last_slash(s.drop_last())
    }
}

/// What `char::to_uppercase` yields for a character; it depends on the
/// character alone.
pub uninterp spec fn upper_of(c: char) -> Seq<char>;

/// Relies on `char::to_uppercase`.
#[verifier::external_body]
fn upper_char(c: char) -> (r: Vec<char>)
    ensures
        r@ == upper_of(c),
{
    c.to_uppercase().collect()
}

/// The uppercased form of a segment's first character: an ASCII lowercase
/// letter becomes its single uppercase letter, any other ASCII character
/// stands unchanged, and everything else is what Unicode uppercasing
/// gives.
pub open spec fn cap_char(c: char) -> Seq<char> {
    if 'a' <= c <= 'z' {
        seq![((c as u32 - 32) as char)]
    } else if '\u{0080}' > c {
        seq![c]
    } else {
        upper_of(c)
    }
}

/// The pascal-case join of the hyphen-separated segments of `s`, from
/// position `i` on: each segment's first character is uppercased and the
/// hyphens are dropped.
pub open spec fn pascal_from(s: Seq<char>, i: int, at_start: bool) -> Seq<char>
    decreases s.len() - i,
{
    if !(0 <= i < s.len()) {
        Seq::empty()
    } else if s[i] == '-' {
        pascal_from(s, i + 1, true)
    } else if at_start {
        cap_char(s[i]) + pascal_from(s, i + 1, false)
    } else {
        seq![s[i]] + pascal_from(s, i + 1, false)
    }
}

/// The companion-file candidates for a markup file: strip `.html`, split
/// off the directory, pascal-case the file stem, and offer the fixed,
/// ordered endings.
pub open spec fn candidates_spec(uri: Seq<char>) -> Seq<Seq<char>> {
    match strip_suffix_spec(uri, ".html"@) {
        None => Seq::empty(),
        Some(stem) => match last_slash(stem) {
            None => Seq::empty(),
            Some(k) => {
                let base = stem.subrange(0, k) + "/"@ + pascal_from(
                    stem.subrange(k + 1, stem.len() as int),
                    0,
                    true,
                );
                seq![base + "Controller.ts"@, base + "Directive.ts"@, base + ".ts"@]
            },
        },
    }
}

fn pascal_x(v: &Vec<char>, i: usize, at_start: bool, out: &mut Vec<char>)
    requires
        i <= v@.len(),
    ensures
        final(out)@ == old(out)@ + pascal_from(v@, i as int, at_start),
    decreases v@.len() - i,
{
    if i < v.len() {
        let c = v[i];
        if c == '-' {
            pascal_x(v, i + 1, true, out);
        } else if at_start {
            if 'a' <= c && c <= 'z' {
                let scalar: u32 = c as u32 - 32;
                let up = crate::json_parse::char_from_scalar(scalar);
                proof {
                    vstd::utf8::char_u32_cast(up, scalar);
                }
                out.push(up);
            } else if '\u{0080}' > c {
                out.push(c);
            } else {
                let mut up = upper_char(c);
                out.append(&mut up);
            }
            pascal_x(v, i + 1, false, out);
            proof {
                assert(out@ =~= old(out)@ + pascal_from(v@, i as int, at_start));
            }
        } else {
            out.push(c);
            pascal_x(v, i + 1, false, out);
            proof {
                assert(out@ =~= old(out)@ + pascal_from(v@, i as int, at_start));
            }
        }
    } else {
        proof {
            assert(out@ =~= old(out)@ + pascal_from(v@, i as int, at_start));
        }
    }
}

fn copy_range(v: &Vec<char>, from: usize, to: usize) -> (r: Vec<char>)
    requires
        from <= to <= v@.len(),
    ensures
        r@ == v@.subrange(from as int, to as int),
{
    let mut r: Vec<char> = Vec::new();
    let mut t = from;
    while t < to
        invariant
            from <= t <= to <= v@.len(),
            r@ == v@.subrange(from as int, t as int),
        decreases to - t,
    {
        r.push(v[t]);
        t += 1;
        proof {
            assert(r@ =~= v@.subrange(from as int, t as int));
        }
    }
    r
}

/// Derive the companion-file candidate uris of a markup uri, in their
/// fixed order.
pub(crate) fn candidate_uris(uri: &str) -> (r: Vec<String>)
    ensures
        r@.len() == candidates_spec(uri@).len(),
        forall|i: int| 0 <= i < r@.len() ==> (#[trigger] r@[i])@ == candidates_spec(uri@)[i],
{
    let chars = str_chars(uri);
    let n = chars.len();
    proof {
        reveal_strlit(".html");
    }
    if !(n >= 5 && chars[n - 5] == '.' && chars[n - 4] == 'h' && chars[n - 3] == 't' && chars[n
        - 2] == 'm' && chars[n - 1] == 'l') {
        proof {
            if n >= 5 {
                let sub = chars@.subrange(n - 5, n as int);
                assert(sub[0] == chars@[n - 5] && sub[1] == chars@[n - 4] && sub[2] == chars@[n
                    - 3] && sub[3] == chars@[n - 2] && sub[4] == chars@[n - 1]);
            }
            assert(strip_suffix_spec(uri@, ".html"@) is None);
        }
        return Vec::new();
    }
    let stem_len = n - 5;
    proof {
        assert(chars@.subrange(n - 5, n as int) =~= ".html"@);
        assert(strip_suffix_spec(uri@, ".html"@) == Some(chars@.subrange(0, n - 5)));
    }
    let ghost stem = chars@.subrange(0, n - 5);
    // find the last slash of the stem
    let mut i = stem_len;
    proof {
        assert(stem.subrange(0, stem_len as int) =~= stem);
    }
    while i > 0 && chars[i - 1] != '/'
        invariant
            i <= stem_len <= chars@.len(),
            stem == chars@.subrange(0, stem_len as int),
            last_slash(stem) == last_slash(stem.subrange(0, i as int)),
        decreases i,
    {
        i -= 1;
        proof {
            assert(stem.subrange(0, i + 1).drop_last() =~= stem.subrange(0, i as int));
            assert(stem.subrange(0, i + 1).last() == chars@[i as int]);
        }
    }
    if i == 0 {
        proof {
            assert(stem.subrange(0, 0) =~= Seq::<char>::empty());
            assert(last_slash(stem) is None);
        }
        return Vec::new();
    }
    let k = i - 1;
    proof {
        assert(stem.subrange(0, i as int).last() == chars@[k as int]);
        assert(last_slash(stem) == Some(k as int));
    }
    // base = directory, slash, pascal-cased stem
    let mut base = copy_range(&chars, 0, k);
    base.push('/');
    let fname = copy_range(&chars, k + 1, stem_len);
    proof {
        assert(fname@ =~= stem.subrange(k + 1, stem.len() as int));
        assert(stem.subrange(0, k as int) =~= chars@.subrange(0, k as int));
        assert(base@ =~= stem.subrange(0, k as int) + "/"@) by {
            reveal_strlit("/");
        }
    }
    pascal_x(&fname, 0, true, &mut base);
    let ghost basev = stem.subrange(0, k as int) + "/"@ + pascal_from(
        stem.subrange(k + 1, stem.len() as int),
        0,
        true,
    );
    proof {
        assert(base@ =~= basev);
    }
    let mut r: Vec<String> = Vec::new();
    let mut c0 = copy_range(&base, 0, base.len());
    let mut s0 = str_chars("Controller.ts");
    c0.append(&mut s0);
    r.push(chars_to_string(&c0));
    let mut c1 = copy_range(&base, 0, base.len());
    let mut s1 = str_chars("Directive.ts");
    c1.append(&mut s1);
    r.push(chars_to_string(&c1));
    let mut c2 = copy_range(&base, 0, base.len());
    let mut s2 = str_chars(".ts");
    c2.append(&mut s2);
    r.push(chars_to_string(&c2));
    proof {
        assert(base@.subrange(0, base@.len() as int) =~= basev);
        assert(r@[0]@ == candidates_spec(uri@)[0]);
        assert(r@[1]@ == candidates_spec(uri@)[1]);
        assert(r@[2]@ == candidates_spec(uri@)[2]);
    }
    r
}

/// The local path of a `file://` uri; any other scheme is refused
/// explicitly.
pub fn uri_to_path<'a>(uri: &'a str) -> (r: Result<&'a str, LSError>)
    ensures
        match r {
            Ok(p) => strip_prefix_spec(uri@, "file://"@) == Some(p@),
            Err(e) => strip_prefix_spec(uri@, "file://"@) is None && (e matches
                LSError::InvalidRequest { message } && message@ == "unsupported URI scheme: "@
                + uri@),
        },
{
    let n = uri.unicode_len();
    proof {
        reveal_strlit("file://");
    }
    if n >= 7 && uri.get_char(0) == 'f' && uri.get_char(1) == 'i' && uri.get_char(2) == 'l'
        && uri.get_char(3) == 'e' && uri.get_char(4) == ':' && uri.get_char(5) == '/'
        && uri.get_char(6) == '/' {
        let p = uri.substring_char(7, n);
        proof {
            assert(uri@.subrange(0, 7) =~= "file://"@);
        }
        Ok(p)
    } else {
        proof {
            if n >= 7 {
                let sub = uri@.subrange(0, 7);
                assert(sub[0] == uri@[0] && sub[1] == uri@[1] && sub[2] == uri@[2] && sub[3]
                    == uri@[3] && sub[4] == uri@[4] && sub[5] == uri@[5] && sub[6] == uri@[6]);
            }
            assert(strip_prefix_spec(uri@, "file://"@) is None);
        }
        let msg = String::from_str("unsupported URI scheme: ").concat(uri);
        Err(LSError::InvalidRequest { message: msg })
    }
}

/// Clamp a syntax-tree coordinate into 32 bits; positions beyond that are
/// out of any real document's reach.
pub open spec fn clamp_u32(n: usize) -> u32 {
    if n <= u32::MAX {
        n as u32
    } else {
        u32::MAX
    }
}

fn clamp_u32_x(n: usize) -> (r: u32)
    ensures
        r == clamp_u32(n),
{
    if n <= 0xFFFF_FFFFusize {
        n as u32
    } else {
        0xFFFF_FFFFu32
    }
}

/// The range of a resolved definition: the field name's node boundaries,
/// as the underlying tree reports them, clamped into 32 bits.
pub open spec fn field_range(at: ((usize, usize), (usize, usize))) -> LsTypeRange {
    LsTypeRange {
        start: LsTypePosition { character: clamp_u32(at.0.1), line: clamp_u32(at.0.0) },
        end: LsTypePosition { character: clamp_u32(at.1.1), line: clamp_u32(at.1.0) },
    }
}

/// Decide the definition result from the two query stages: the first
/// public field definition of the companion file, in document order, when
/// the fragment accessed a property on `vm` at all; otherwise the null
/// result. The field returned is deliberately not matched against the
/// property name the fragment accessed.
pub fn definition_outcome(
    ts_uri: &str,
    props: &Vec<String>,
    fields: &Vec<((usize, usize), (usize, usize))>,
) -> (r: LSMessageResponseBody)
    ensures
        props@.len() == 0 || fields@.len() == 0 ==> r is NullResult,
        props@.len() > 0 && fields@.len() > 0 ==> (r matches LSMessageResponseBody::Location(
            loc,
        ) && loc.uri@ == ts_uri@ && loc.range == field_range(fields@[0])),
{
    if props.len() == 0 || fields.len() == 0 {
        return LSMessageResponseBody::NullResult;
    }
    let srow = clamp_u32_x(fields[0].0.0) as usize;
    let scol = clamp_u32_x(fields[0].0.1) as usize;
    let erow = clamp_u32_x(fields[0].1.0) as usize;
    let ecol = clamp_u32_x(fields[0].1.1) as usize;
    let range = LsTypeRange::range((srow, scol), (erow, ecol));
    let r = LSMessageResponseBody::Location(
        LSMessageResponseLocation::new(String::from_str(ts_uri), range),
    );
    proof {
        assert(r->Location_0.range == field_range(fields@[0]));
    }
    r
}

impl crate::server::LServer {
    /// The companion files a markup uri may be paired with, in the fixed
    /// order in which they are tried.
    pub fn get_controller_possible_uris(&self, uri: &str) -> (r: Vec<String>)
        ensures
            r@.len() == candidates_spec(uri@).len(),
            forall|i: int|
                0 <= i < r@.len() ==> (#[trigger] r@[i])@ == candidates_spec(uri@)[i],
    {
        candidate_uris(uri)
    }

    /// The local path of a `file://` uri; any other scheme is refused
    /// explicitly.
    pub fn path_from_uri<'a>(&self, uri: &'a str) -> (r: Result<&'a str, LSError>)
        ensures
            match r {
                Ok(p) => strip_prefix_spec(uri@, "file://"@) == Some(p@),
                Err(e) => strip_prefix_spec(uri@, "file://"@) is None && (e matches
                    LSError::InvalidRequest { message } && message@
                    == "unsupported URI scheme: "@ + uri@),
            },
    {
        uri_to_path(uri)
    }
}

} // verus!
