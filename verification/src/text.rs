//! Byte-level text helpers shared by the stream decoder: whitespace
//! scanning, trimming, byte search, and range copying.

use vstd::prelude::*;
use vstd::utf8::*;

verus! {

/// Bytes treated as XML whitespace: space, tab, carriage return, line feed.
pub open spec fn is_ws(b: u8) -> bool {
    b == 32 || b == 9 || b == 13 || b == 10
}

/// First index at or after `i` holding byte `b`, or the sequence's length
/// when `b` does not occur there.
pub open spec fn find_from(s: Seq<u8>, i: int, b: u8) -> int
    decreases s.len() - i,
{
    if i >= s.len() {
        s.len() as int
    } else if s[i] == b {
        i
    } else {
        find_from(s, i + 1, b)
    }
}

pub proof fn lemma_find_from(s: Seq<u8>, i: int, b: u8)
    requires
        0 <= i <= s.len(),
    ensures
        i <= find_from(s, i, b) <= s.len(),
        find_from(s, i, b) < s.len() ==> s[find_from(s, i, b)] == b,
        forall|k: int| i <= k < find_from(s, i, b) ==> s[k] != b,
    decreases s.len() - i,
{
    if i < s.len() && s[i] != b {
        lemma_find_from(s, i + 1, b);
    }
}

/// First index at or after `i` holding a byte that is not whitespace, or the
/// sequence's length when everything from `i` on is whitespace.
pub open spec fn skip_ws_from(s: Seq<u8>, i: int) -> int
    decreases s.len() - i,
{
    if i >= s.len() {
        s.len() as int
    } else if is_ws(s[i]) {
        skip_ws_from(s, i + 1)
    } else {
        i
    }
}

pub proof fn lemma_skip_ws_from(s: Seq<u8>, i: int)
    requires
        0 <= i <= s.len(),
    ensures
        i <= skip_ws_from(s, i) <= s.len(),
        skip_ws_from(s, i) < s.len() ==> !is_ws(s[skip_ws_from(s, i)]),
        forall|k: int| i <= k < skip_ws_from(s, i) ==> is_ws(s[k]),
    decreases s.len() - i,
{
    if i < s.len() && is_ws(s[i]) {
        lemma_skip_ws_from(s, i + 1);
    }
}

/// Bounds of `find_from` that hold for any starting index; used to justify
/// termination of definitions that scan forward.
pub proof fn lemma_find_from_ge(s: Seq<u8>, i: int, b: u8)
    ensures
        find_from(s, i, b) <= s.len(),
        i <= find_from(s, i, b) || find_from(s, i, b) == s.len(),
    decreases s.len() - i,
{
    if i < s.len() && s[i] != b {
        lemma_find_from_ge(s, i + 1, b);
    }
}

/// Bounds of `skip_ws_from` that hold for any starting index.
pub proof fn lemma_skip_ws_from_ge(s: Seq<u8>, i: int)
    ensures
        skip_ws_from(s, i) <= s.len(),
        i <= skip_ws_from(s, i) || skip_ws_from(s, i) == s.len(),
    decreases s.len() - i,
{
    if i < s.len() && is_ws(s[i]) {
        lemma_skip_ws_from_ge(s, i + 1);
    }
}

/// End of the text once trailing whitespace before index `j` is dropped:
/// the least `r` such that every byte in `[r, j)` is whitespace and the byte
/// before `r`, if any, is not.
pub open spec fn rskip_ws(s: Seq<u8>, j: int) -> int
    decreases j,
{
    if j <= 0 {
        0
    } else if is_ws(s[j - 1]) {
        rskip_ws(s, j - 1)
    } else {
        j
    }
}

pub proof fn lemma_rskip_ws(s: Seq<u8>, j: int)
    requires
        0 <= j <= s.len(),
    ensures
        0 <= rskip_ws(s, j) <= j,
        rskip_ws(s, j) > 0 ==> !is_ws(s[rskip_ws(s, j) - 1]),
        forall|k: int| rskip_ws(s, j) <= k < j ==> is_ws(s[k]),
    decreases j,
{
    if j > 0 && is_ws(s[j - 1]) {
        lemma_rskip_ws(s, j - 1);
    }
}

/// The text with surrounding whitespace dropped.
pub open spec fn spec_trim(s: Seq<u8>) -> Seq<u8> {
    let a = skip_ws_from(s, 0);
    if a == s.len() {
        Seq::empty()
    } else {
        s.subrange(a, rskip_ws(s, s.len() as int))
    }
}

/// First index at or after `i` holding a whitespace byte, or the sequence's
/// length when none follows.
pub open spec fn find_ws_from(s: Seq<u8>, i: int) -> int
    decreases s.len() - i,
{
    if i >= s.len() {
        s.len() as int
    } else if is_ws(s[i]) {
        i
    } else {
        find_ws_from(s, i + 1)
    }
}

pub proof fn lemma_find_ws_from(s: Seq<u8>, i: int)
    requires
        0 <= i <= s.len(),
    ensures
        i <= find_ws_from(s, i) <= s.len(),
        find_ws_from(s, i) < s.len() ==> is_ws(s[find_ws_from(s, i)]),
        forall|k: int| i <= k < find_ws_from(s, i) ==> !is_ws(s[k]),
    decreases s.len() - i,
{
    if i < s.len() && !is_ws(s[i]) {
        lemma_find_ws_from(s, i + 1);
    }
}

/// First position of a whitespace byte in `v` at or after `from`; `v.len()`
/// when none follows.
pub fn find_ws(v: &Vec<u8>, from: usize) -> (r: usize)
    requires
        from <= v.len(),
    ensures
        r == find_ws_from(v@, from as int),
        from <= r <= v.len(),
{
    let mut i: usize = from;
    loop
        invariant
            from <= i <= v.len(),
            forall|k: int| from <= k < i ==> !is_ws(v@[k]),
        decreases v.len() - i,
    {
        proof {
            lemma_find_ws_from(v@, from as int);
        }
        if i == v.len() {
            return i;
        }
        let c = v[i];
        if c == 32 || c == 9 || c == 13 || c == 10 {
            return i;
        }
        i = i + 1;
    }
}

/// First position of `b` in `v` at or after `from`; `v.len()` when absent.
pub fn find_byte(v: &Vec<u8>, from: usize, b: u8) -> (r: usize)
    requires
        from <= v.len(),
    ensures
        r == find_from(v@, from as int, b),
        from <= r <= v.len(),
{
    let mut i: usize = from;
    loop
        invariant
            from <= i <= v.len(),
            forall|k: int| from <= k < i ==> v@[k] != b,
        decreases v.len() - i,
    {
        proof {
            lemma_find_from(v@, from as int, b);
        }
        if i == v.len() {
            return i;
        }
        if v[i] == b {
            return i;
        }
        i = i + 1;
    }
}

/// First position of a non-whitespace byte in `v` at or after `from`;
/// `v.len()` when everything from there on is whitespace.
pub fn skip_ws(v: &Vec<u8>, from: usize) -> (r: usize)
    requires
        from <= v.len(),
    ensures
        r == skip_ws_from(v@, from as int),
        from <= r <= v.len(),
{
    let mut i: usize = from;
    loop
        invariant
            from <= i <= v.len(),
            forall|k: int| from <= k < i ==> is_ws(v@[k]),
        decreases v.len() - i,
    {
        proof {
            lemma_skip_ws_from(v@, from as int);
        }
        if i == v.len() {
            return i;
        }
        let c = v[i];
        if !(c == 32 || c == 9 || c == 13 || c == 10) {
            return i;
        }
        i = i + 1;
    }
}

/// Copy of the bytes of `v` in `[lo, hi)`.
pub fn copy_range(v: &Vec<u8>, lo: usize, hi: usize) -> (r: Vec<u8>)
    requires
        lo <= hi <= v.len(),
    ensures
        r@ == v@.subrange(lo as int, hi as int),
{
    let mut r: Vec<u8> = Vec::new();
    let mut i: usize = lo;
    while i < hi
        invariant
            lo <= i <= hi <= v.len(),
            r@ == v@.subrange(lo as int, i as int),
        decreases hi - i,
    {
        r.push(v[i]);
        proof {
            assert(v@.subrange(lo as int, i + 1 as int) =~= v@.subrange(lo as int, i as int).push(
                v@[i as int],
            ));
        }
        i = i + 1;
    }
    r
}

/// The bytes of `v` with surrounding whitespace dropped.
pub fn trim_bytes(v: &Vec<u8>) -> (r: Vec<u8>)
    ensures
        r@ == spec_trim(v@),
{
    let a = skip_ws(v, 0);
    proof {
        lemma_skip_ws_from(v@, 0);
    }
    if a == v.len() {
        let r: Vec<u8> = Vec::new();
        return r;
    }
    let mut j: usize = v.len();
    loop
        invariant_except_break
            j <= v.len(),
            rskip_ws(v@, v@.len() as int) == rskip_ws(v@, j as int),
        ensures
            j <= v.len(),
            rskip_ws(v@, v@.len() as int) == j as int,
        decreases j,
    {
        proof {
            lemma_rskip_ws(v@, j as int);
        }
        if j == 0 {
            break;
        }
        let c = v[j - 1];
        if !(c == 32 || c == 9 || c == 13 || c == 10) {
            break;
        }
        j = j - 1;
    }
    proof {
        lemma_rskip_ws(v@, v@.len() as int);
        if j <= a {
            assert(is_ws(v@[a as int]));
        }
    }
    copy_range(v, a, j)
}

/// Whether `v` is a valid UTF-8 encoding, in the sense of
/// `vstd::utf8::valid_utf8`. Text handed over by clients must be checked
/// before it is treated as an identifier or a message body; invalid text
/// encoding is a decode failure.
pub fn is_valid_utf8(v: &Vec<u8>) -> (r: bool)
    ensures
        r == valid_utf8(v@),
{
    let n = v.len();
    let mut i: usize = 0;
    proof {
        assert(v@.skip(0) =~= v@);
    }
    loop
        invariant
            i <= n == v.len(),
            valid_utf8(v@) <==> valid_utf8(v@.skip(i as int)),
        decreases n - i,
    {
        let ghost suf = v@.skip(i as int);
        if i == n {
            proof {
                assert(suf.len() == 0);
                assert(valid_utf8(suf));
            }
            return true;
        }
        let b1 = v[i];
        proof {
            assert(suf[0] == v@[i as int]);
        }
        let width: usize = if b1 < 0x80 {
            1
        } else if b1 < 0xc0 {
            proof {
                assert(!valid_first_scalar(suf));
                assert(!valid_utf8(suf));
            }
            return false;
        } else if b1 < 0xe0 {
            2
        } else if b1 < 0xf0 {
            3
        } else if b1 < 0xf8 {
            4
        } else {
            proof {
                assert(!valid_first_scalar(suf));
                assert(!valid_utf8(suf));
            }
            return false;
        };
        if n - i < width {
            proof {
                assert(suf.len() < width);
                assert(!valid_leading_and_continuation_bytes_first_codepoint(suf));
                assert(!valid_utf8(suf));
            }
            return false;
        }
        if width >= 2 && !(0x80 <= v[i + 1] && v[i + 1] <= 0xbf) {
            proof {
                assert(suf[1] == v@[i + 1]);
                assert(!valid_leading_and_continuation_bytes_first_codepoint(suf));
                assert(!valid_utf8(suf));
            }
            return false;
        }
        if width >= 3 && !(0x80 <= v[i + 2] && v[i + 2] <= 0xbf) {
            proof {
                assert(suf[1] == v@[i + 1] && suf[2] == v@[i + 2]);
                assert(!valid_leading_and_continuation_bytes_first_codepoint(suf));
                assert(!valid_utf8(suf));
            }
            return false;
        }
        if width >= 4 && !(0x80 <= v[i + 3] && v[i + 3] <= 0xbf) {
            proof {
                assert(suf[1] == v@[i + 1] && suf[2] == v@[i + 2] && suf[3] == v@[i + 3]);
                assert(!valid_leading_and_continuation_bytes_first_codepoint(suf));
                assert(!valid_utf8(suf));
            }
            return false;
        }
        proof {
            assert(forall|k: int| 0 <= k < width ==> suf[k] == v@[i + k]);
            assert(valid_leading_and_continuation_bytes_first_codepoint(suf));
            assert(length_of_first_codepoint(suf) == width);
        }
        let cp: u32 = if width == 1 {
            (b1 & 0x7f) as u32
        } else if width == 2 {
            (((b1 & 0x1f) as u32) << 6) | ((v[i + 1] & 0x3f) as u32)
        } else if width == 3 {
            (((b1 & 0x0f) as u32) << 12) | (((v[i + 1] & 0x3f) as u32) << 6) | ((v[i + 2]
                & 0x3f) as u32)
        } else {
            (((b1 & 0x07) as u32) << 18) | (((v[i + 1] & 0x3f) as u32) << 12) | (((v[i + 2]
                & 0x3f) as u32) << 6) | ((v[i + 3] & 0x3f) as u32)
        };
        proof {
            assert(cp == decode_first_codepoint(suf));
        }
        let ok: bool = if width == 1 {
            proof {
                let b = b1;
                assert(((b & 0x7f) as u32) < 0xd800u32) by (bit_vector);
            }
            true
        } else if width == 2 {
            proof {
                let b = b1;
                let c = v@[i + 1];
                assert(((((b & 0x1f) as u32) << 6) | ((c & 0x3f) as u32)) < 0xd800u32)
                    by (bit_vector);
            }
            0x80 <= cp
        } else if width == 3 {
            0x800 <= cp && !(0xd800 <= cp && cp <= 0xdfff)
        } else {
            0x10000 <= cp && cp <= 0x10ffff
        };
        if !ok {
            proof {
                assert(!valid_first_scalar(suf));
                assert(!valid_utf8(suf));
            }
            return false;
        }
        proof {
            assert(not_overlong_encoding(cp, width as int));
            assert(not_surrogate(cp));
            assert(valid_first_scalar(suf));
            assert(valid_utf8(suf) == valid_utf8(pop_first_scalar(suf)));
            assert(pop_first_scalar(suf) =~= v@.skip(i + width));
        }
        i = i + width;
    }
}

/// Whether two byte vectors hold the same bytes.
pub fn bytes_eq(a: &Vec<u8>, b: &Vec<u8>) -> (r: bool)
    ensures
        r == (a@ == b@),
{
    if a.len() != b.len() {
        proof {
            assert(a@ != b@);
        }
        return false;
    }
    let mut i: usize = 0;
    while i < a.len()
        invariant
            a.len() == b.len(),
            0 <= i <= a.len(),
            forall|k: int| 0 <= k < i ==> a@[k] == b@[k],
        decreases a.len() - i,
    {
        if a[i] != b[i] {
            return false;
        }
        i = i + 1;
    }
    proof {
        assert(a@ =~= b@);
    }
    true
}

} // verus!
