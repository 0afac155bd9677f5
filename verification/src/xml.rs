//! The XML-like surface of the stream: tag classification, tag names,
//! best-effort attribute extraction, and entity unescaping.
//!
//! A tag's content is the byte run between `<` and `>`. Attribute lookup is
//! a simple linear scan, tolerant of malformed input: scanning stops at the
//! first attribute that does not follow the `name = 'value'` shape, and the
//! first attribute named exactly `to` wins, namespaces notwithstanding.

use vstd::prelude::*;

use crate::text::{
    bytes_eq, copy_range, find_byte, find_from, find_ws, find_ws_from, is_valid_utf8, is_ws,
    lemma_find_from_ge, lemma_skip_ws_from_ge, skip_ws, skip_ws_from,
};

verus! {

pub const LT: u8 = 60;

pub const GT: u8 = 62;

pub const SLASH: u8 = 47;

pub const AMP: u8 = 38;

pub const SEMI: u8 = 59;

pub const QMARK: u8 = 63;

pub const BANG: u8 = 33;

pub const EQUALS: u8 = 61;

pub const APOS: u8 = 39;

pub const QUOT: u8 = 34;

/// The bytes of `stream:stream`, the stream-open tag name.
pub open spec fn stream_name() -> Seq<u8> {
    seq![115u8, 116u8, 114u8, 101u8, 97u8, 109u8, 58u8, 115u8, 116u8, 114u8, 101u8, 97u8, 109u8]
}

/// The bytes of `message`, the stanza tag name.
pub open spec fn message_name() -> Seq<u8> {
    seq![109u8, 101u8, 115u8, 115u8, 97u8, 103u8, 101u8]
}

/// The bytes of `body`, the payload tag name.
pub open spec fn body_name() -> Seq<u8> {
    seq![98u8, 111u8, 100u8, 121u8]
}

/// The bytes of `to`, the routing attribute name.
pub open spec fn to_name() -> Seq<u8> {
    seq![116u8, 111u8]
}

/// The bytes of `stream:stream` as a vector.
pub fn stream_name_vec() -> (r: Vec<u8>)
    ensures
        r@ == stream_name(),
{
    let mut r: Vec<u8> = Vec::new();
    r.push(115);
    r.push(116);
    r.push(114);
    r.push(101);
    r.push(97);
    r.push(109);
    r.push(58);
    r.push(115);
    r.push(116);
    r.push(114);
    r.push(101);
    r.push(97);
    r.push(109);
    proof {
        assert(r@ =~= stream_name());
    }
    r
}

/// The bytes of `message` as a vector.
pub fn message_name_vec() -> (r: Vec<u8>)
    ensures
        r@ == message_name(),
{
    let mut r: Vec<u8> = Vec::new();
    r.push(109);
    r.push(101);
    r.push(115);
    r.push(115);
    r.push(97);
    r.push(103);
    r.push(101);
    proof {
        assert(r@ =~= message_name());
    }
    r
}

/// The bytes of `body` as a vector.
pub fn body_name_vec() -> (r: Vec<u8>)
    ensures
        r@ == body_name(),
{
    let mut r: Vec<u8> = Vec::new();
    r.push(98);
    r.push(111);
    r.push(100);
    r.push(121);
    proof {
        assert(r@ =~= body_name());
    }
    r
}

fn to_name_vec() -> (r: Vec<u8>)
    ensures
        r@ == to_name(),
{
    let mut r: Vec<u8> = Vec::new();
    r.push(116);
    r.push(111);
    proof {
        assert(r@ =~= to_name());
    }
    r
}

/// What a tag is, judged from its content between `<` and `>`: an opening
/// tag, a closing tag, or something the stream ignores (declarations,
/// comments, self-closing tags, and empty tags).
#[derive(PartialEq, Eq, Structural)]
pub enum TagKind {
    Open,
    Close,
    Ignored,
}

/// Classification of a tag's content.
pub open spec fn spec_tag_kind(c: Seq<u8>) -> TagKind {
    if c.len() == 0 {
        TagKind::Ignored
    } else if c[0] == SLASH {
        TagKind::Close
    } else if c[0] == QMARK || c[0] == BANG {
        TagKind::Ignored
    } else if c[c.len() - 1] == SLASH {
        TagKind::Ignored
    } else {
        TagKind::Open
    }
}

/// Classifies a tag by its content.
pub fn tag_kind(c: &Vec<u8>) -> (r: TagKind)
    ensures
        r == spec_tag_kind(c@),
{
    if c.len() == 0 {
        TagKind::Ignored
    } else if c[0] == SLASH {
        TagKind::Close
    } else if c[0] == QMARK || c[0] == BANG {
        TagKind::Ignored
    } else if c[c.len() - 1] == SLASH {
        TagKind::Ignored
    } else {
        TagKind::Open
    }
}

/// The name of a tag with the given content: the bytes up to the first
/// whitespace, after the leading `/` of a closing tag.
pub open spec fn spec_tag_name(c: Seq<u8>) -> Seq<u8> {
    if c.len() > 0 && c[0] == SLASH {
        c.subrange(1, find_ws_from(c, 1))
    } else {
        c.subrange(0, find_ws_from(c, 0))
    }
}

/// Extracts a tag's name from its content.
pub fn tag_name(c: &Vec<u8>) -> (r: Vec<u8>)
    ensures
        r@ == spec_tag_name(c@),
{
    if c.len() > 0 && c[0] == SLASH {
        let e = find_ws(c, 1);
        copy_range(c, 1, e)
    } else {
        let e = find_ws(c, 0);
        copy_range(c, 0, e)
    }
}

/// First index at or after `i` where an attribute name ends: a whitespace
/// byte or `=`; the length when neither follows.
pub open spec fn attr_name_stop(c: Seq<u8>, i: int) -> int
    decreases c.len() - i,
{
    if i >= c.len() {
        c.len() as int
    } else if is_ws(c[i]) || c[i] == EQUALS {
        i
    } else {
        attr_name_stop(c, i + 1)
    }
}

proof fn lemma_attr_name_stop_ge(c: Seq<u8>, i: int)
    ensures
        attr_name_stop(c, i) <= c.len(),
        i <= attr_name_stop(c, i) || attr_name_stop(c, i) == c.len(),
    decreases c.len() - i,
{
    if i < c.len() && !(is_ws(c[i]) || c[i] == EQUALS) {
        lemma_attr_name_stop_ge(c, i + 1);
    }
}

/// Position where an attribute name ends, at or after `from`.
fn attr_name_stop_pos(c: &Vec<u8>, from: usize) -> (r: usize)
    requires
        from <= c.len(),
    ensures
        r == attr_name_stop(c@, from as int),
        from <= r <= c.len(),
    decreases c.len() - from,
{
    if from == c.len() {
        return from;
    }
    let b = c[from];
    if b == 32 || b == 9 || b == 13 || b == 10 || b == EQUALS {
        return from;
    }
    attr_name_stop_pos(c, from + 1)
}

/// The raw value of the first attribute named `to` in the attribute region
/// of a tag's content, starting the scan at `i`; nothing when no such
/// attribute stands before the first malformed one.
pub open spec fn spec_to_value(c: Seq<u8>, i: int) -> Option<Seq<u8>>
    decreases c.len() - i,
    when i >= 0
    via spec_to_value_decreases
{
    let p = skip_ws_from(c, i);
    if p >= c.len() {
        None
    } else {
        let e = attr_name_stop(c, p);
        let q = skip_ws_from(c, e);
        if q >= c.len() || c[q] != EQUALS {
            None
        } else {
            let vs = skip_ws_from(c, q + 1);
            if vs >= c.len() || (c[vs] != APOS && c[vs] != QUOT) {
                None
            } else {
                let z = find_from(c, vs + 1, c[vs]);
                if z >= c.len() {
                    None
                } else if c.subrange(p, e) == to_name() {
                    Some(c.subrange(vs + 1, z))
                } else {
                    spec_to_value(c, z + 1)
                }
            }
        }
    }
}

#[via_fn]
proof fn spec_to_value_decreases(c: Seq<u8>, i: int) {
    lemma_skip_ws_from_ge(c, i);
    let p = skip_ws_from(c, i);
    lemma_attr_name_stop_ge(c, p);
    let e = attr_name_stop(c, p);
    lemma_skip_ws_from_ge(c, e);
    let q = skip_ws_from(c, e);
    lemma_skip_ws_from_ge(c, q + 1);
    let vs = skip_ws_from(c, q + 1);
    if 0 <= vs < c.len() {
        lemma_find_from_ge(c, vs + 1, c[vs]);
    }
}

/// Scans a tag's content for the first attribute named `to`, from `i` on.
pub fn scan_to_value(c: &Vec<u8>, i: usize) -> (r: Option<Vec<u8>>)
    requires
        i <= c.len(),
    ensures
        match r {
            Some(v) => spec_to_value(c@, i as int) == Some(v@),
            None => spec_to_value(c@, i as int) is None,
        },
    decreases c.len() - i,
{
    let p = skip_ws(c, i);
    if p == c.len() {
        return None;
    }
    let e = attr_name_stop_pos(c, p);
    let q = skip_ws(c, e);
    if q == c.len() || c[q] != EQUALS {
        return None;
    }
    let vs = skip_ws(c, q + 1);
    if vs == c.len() {
        return None;
    }
    let quote = c[vs];
    if quote != APOS && quote != QUOT {
        return None;
    }
    let z = find_byte(c, vs + 1, quote);
    if z == c.len() {
        return None;
    }
    let name = copy_range(c, p, e);
    let to = to_name_vec();
    if bytes_eq(&name, &to) {
        Some(copy_range(c, vs + 1, z))
    } else {
        scan_to_value(c, z + 1)
    }
}

/// The byte a named character reference stands for: the five predefined
/// XML entities. Anything else, numeric references included, is unknown
/// and makes the text undecodable.
pub open spec fn entity_byte(name: Seq<u8>) -> Option<u8> {
    if name == seq![108u8, 116u8] {  // lt
        Some(LT)
    } else if name == seq![103u8, 116u8] {  // gt
        Some(GT)
    } else if name == seq![97u8, 109u8, 112u8] {  // amp
        Some(AMP)
    } else if name == seq![97u8, 112u8, 111u8, 115u8] {  // apos
        Some(APOS)
    } else if name == seq![113u8, 117u8, 111u8, 116u8] {  // quot
        Some(QUOT)
    } else {
        None
    }
}

/// Looks a character reference's name up.
fn entity_lookup(name: &Vec<u8>) -> (r: Option<u8>)
    ensures
        r == entity_byte(name@),
{
    if name.len() == 2 && name[0] == 108 && name[1] == 116 {
        proof {
            assert(name@ =~= seq![108u8, 116u8]);
        }
        Some(LT)
    } else if name.len() == 2 && name[0] == 103 && name[1] == 116 {
        proof {
            assert(name@ =~= seq![103u8, 116u8]);
        }
        Some(GT)
    } else if name.len() == 3 && name[0] == 97 && name[1] == 109 && name[2] == 112 {
        proof {
            assert(name@ =~= seq![97u8, 109u8, 112u8]);
        }
        Some(AMP)
    } else if name.len() == 4 && name[0] == 97 && name[1] == 112 && name[2] == 111 && name[3]
        == 115 {
        proof {
            assert(name@ =~= seq![97u8, 112u8, 111u8, 115u8]);
        }
        Some(APOS)
    } else if name.len() == 4 && name[0] == 113 && name[1] == 117 && name[2] == 111 && name[3]
        == 116 {
        proof {
            assert(name@ =~= seq![113u8, 117u8, 111u8, 116u8]);
        }
        Some(QUOT)
    } else {
        proof {
            assert(entity_byte(name@) is None);
        }
        None
    }
}

/// The text with each character reference replaced by the byte it stands
/// for, scanning from `i`; nothing when a reference is unterminated or
/// unknown.
pub open spec fn spec_unescape(s: Seq<u8>, i: int) -> Option<Seq<u8>>
    decreases s.len() - i,
    when i >= 0
    via spec_unescape_decreases
{
    if i >= s.len() {
        Some(Seq::empty())
    } else if s[i] == AMP {
        let z = find_from(s, i + 1, SEMI);
        if z >= s.len() {
            None
        } else {
            match entity_byte(s.subrange(i + 1, z)) {
                None => None,
                Some(b) => match spec_unescape(s, z + 1) {
                    None => None,
                    Some(rest) => Some(seq![b] + rest),
                },
            }
        }
    } else {
        match spec_unescape(s, i + 1) {
            None => None,
            Some(rest) => Some(seq![s[i]] + rest),
        }
    }
}

#[via_fn]
proof fn spec_unescape_decreases(s: Seq<u8>, i: int) {
    lemma_find_from_ge(s, i + 1, SEMI);
}

/// Replaces the predefined character references in `v`; nothing when a
/// reference is unterminated or unknown.
pub fn unescape(v: &Vec<u8>) -> (r: Option<Vec<u8>>)
    ensures
        match r {
            Some(out) => spec_unescape(v@, 0) == Some(out@),
            None => spec_unescape(v@, 0) is None,
        },
{
    let mut out: Vec<u8> = Vec::new();
    let mut i: usize = 0;
    proof {
        match spec_unescape(v@, 0) {
            Some(rest) => {
                assert(out@ + rest =~= rest);
            },
            None => {},
        }
    }
    loop
        invariant
            i <= v.len(),
            spec_unescape(v@, 0) == (match spec_unescape(v@, i as int) {
                None => None::<Seq<u8>>,
                Some(rest) => Some(out@ + rest),
            }),
        decreases v.len() - i,
    {
        if i == v.len() {
            proof {
                assert(spec_unescape(v@, i as int) == Some(Seq::<u8>::empty()));
                assert(out@ + Seq::<u8>::empty() =~= out@);
            }
            return Some(out);
        }
        let c = v[i];
        if c == AMP {
            let z = find_byte(v, i + 1, SEMI);
            if z == v.len() {
                return None;
            }
            let name = copy_range(v, i + 1, z);
            match entity_lookup(&name) {
                None => {
                    return None;
                },
                Some(b) => {
                    let ghost out_pre = out@;
                    out.push(b);
                    proof {
                        match spec_unescape(v@, z + 1) {
                            Some(rest) => {
                                assert(out_pre + (seq![b] + rest) =~= out_pre.push(b) + rest);
                            },
                            None => {},
                        }
                    }
                    i = z + 1;
                },
            }
        } else {
            let ghost out_pre = out@;
            out.push(c);
            proof {
                match spec_unescape(v@, i + 1) {
                    Some(rest) => {
                        assert(out_pre + (seq![c] + rest) =~= out_pre.push(c) + rest);
                    },
                    None => {},
                }
            }
            i = i + 1;
        }
    }
}

/// The text a raw run stands for once character references are replaced,
/// provided the outcome is valid UTF-8; nothing when unescaping fails or
/// the outcome is not valid UTF-8. Both failures are decode failures.
pub open spec fn spec_decode_text(raw: Seq<u8>) -> Option<Seq<u8>> {
    match spec_unescape(raw, 0) {
        None => None,
        Some(u) => if vstd::utf8::valid_utf8(u) {
            Some(u)
        } else {
            None
        },
    }
}

/// Decodes a raw text run: unescape, then require valid UTF-8.
pub fn decode_text(raw: &Vec<u8>) -> (r: Option<Vec<u8>>)
    ensures
        match r {
            Some(out) => spec_decode_text(raw@) == Some(out@),
            None => spec_decode_text(raw@) is None,
        },
{
    match unescape(raw) {
        None => None,
        Some(u) => {
            if is_valid_utf8(&u) {
                Some(u)
            } else {
                None
            }
        },
    }
}

} // verus!
