//! Text helpers: byte-level equality and the search normalization of paths.

use unicode_normalization::UnicodeNormalization;
use vstd::prelude::*;
use vstd::string::StringSliceAdditionalSpecFns;

verus! {

broadcast use vstd::utf8::encode_utf8_decode_utf8;

/// The canonical decomposition (NFD) of a text.
pub uninterp spec fn nfd_of(s: Seq<char>) -> Seq<char>;

/// The lowercase mapping of one char, which may be several chars long.
pub uninterp spec fn char_lower_of(c: char) -> Seq<char>;

/// A char in one of the combining-mark blocks whose code points are dropped
/// from search text: Combining Diacritical Marks (and its Extended and
/// Supplement blocks), marks for symbols, and combining half marks.
pub open spec fn is_mark(c: char) -> bool {
    let u = c as u32;
    (0x0300 <= u <= 0x036F) || (0x1AB0 <= u <= 0x1AFF) || (0x1DC0 <= u <= 0x1DFF) || (0x20D0
        <= u <= 0x20FF) || (0xFE20 <= u <= 0xFE2F)
}

/// Drops the marks of a decomposed text and lowercases every other char.
pub open spec fn fold_marks(cs: Seq<char>) -> Seq<char>
    decreases cs.len(),
{
    if cs.len() == 0 {
        Seq::empty()
    } else {
        let init = fold_marks(cs.drop_last());
        if is_mark(cs.last()) {
            init
        } else {
            init + char_lower_of(cs.last())
        }
    }
}

/// The normalized form of a path: decomposed, marks stripped, lowercased.
pub open spec fn normalized(s: Seq<char>) -> Seq<char> {
    fold_marks(nfd_of(s))
}

/// The UTF-8 bytes of the normalized form of a path.
pub open spec fn norm_bytes(s: Seq<char>) -> Seq<u8> {
    vstd::utf8::encode_utf8(normalized(s))
}

/// Relies on unicode_normalization's `nfd`: the canonical decomposition of
/// the text, as a sequence of chars.
#[verifier::external_body]
fn decompose(s: &str) -> (r: Vec<char>)
    ensures
        r@ == nfd_of(s@),
{
    s.nfd().collect()
}

/// Relies on `char::to_lowercase`: the lowercase mapping of one char.
#[verifier::external_body]
fn lower_char(c: char) -> (r: String)
    ensures
        r@ == char_lower_of(c),
{
    c.to_lowercase().collect()
}

/// Whether `c` is a combining mark that normalization strips.
pub fn is_combining_mark(c: char) -> (r: bool)
    ensures
        r == is_mark(c),
{
    let u = c as u32;
    (0x0300 <= u && u <= 0x036F) || (0x1AB0 <= u && u <= 0x1AFF) || (0x1DC0 <= u && u <= 0x1DFF)
        || (0x20D0 <= u && u <= 0x20FF) || (0xFE20 <= u && u <= 0xFE2F)
}

/// Normalizes a path for search: canonical decomposition, combining marks
/// stripped, every remaining char lowercased.
pub fn normalize_path(path: &str) -> (r: String)
    ensures
        r@ == normalized(path@),
{
    let cs = decompose(path);
    let mut out = String::new();
    let mut i: usize = 0;
    while i < cs.len()
        invariant
            0 <= i <= cs@.len(),
            cs@ == nfd_of(path@),
            out@ == fold_marks(cs@.subrange(0, i as int)),
        decreases cs@.len() - i,
    {
        let c = cs[i];
        proof {
            assert(cs@.subrange(0, i + 1).drop_last() =~= cs@.subrange(0, i as int));
        }
        if !is_combining_mark(c) {
            let low = lower_char(c);
            out.append(low.as_str());
        }
        i += 1;
    }
    proof {
        assert(cs@.subrange(0, cs@.len() as int) =~= cs@);
    }
    out
}

/// A char with the Unicode White_Space property.
pub open spec fn is_white_space(c: char) -> bool {
    let u = c as u32;
    (0x9 <= u <= 0xD) || u == 0x20 || u == 0x85 || u == 0xA0 || u == 0x1680 || (0x2000 <= u
        <= 0x200A) || u == 0x2028 || u == 0x2029 || u == 0x202F || u == 0x205F || u == 0x3000
}

/// Whether `c` has the Unicode White_Space property.
pub fn is_white_space_char(c: char) -> (r: bool)
    ensures
        r == is_white_space(c),
{
    let u = c as u32;
    (0x9 <= u && u <= 0xD) || u == 0x20 || u == 0x85 || u == 0xA0 || u == 0x1680 || (0x2000 <= u
        && u <= 0x200A) || u == 0x2028 || u == 0x2029 || u == 0x202F || u == 0x205F || u == 0x3000
}

/// Relies on `str::chars`: the chars of a text, in order.
#[verifier::external_body]
pub(crate) fn chars_of(s: &str) -> (r: Vec<char>)
    ensures
        r@ == s@,
{
    s.chars().collect()
}

/// Relies on `String`'s `FromIterator<char>`: the text made of the given chars.
#[verifier::external_body]
pub(crate) fn text_of(cs: &[char]) -> (r: String)
    ensures
        r@ == cs@,
{
    cs.iter().collect()
}

/// Whether `s` begins with `prefix`.
pub fn starts_with_text(s: &str, prefix: &str) -> (r: bool)
    ensures
        r == (prefix@.len() <= s@.len() && s@.subrange(0, prefix@.len() as int) == prefix@),
{
    let a = chars_of(s);
    let b = chars_of(prefix);
    if b.len() > a.len() {
        return false;
    }
    let mut i: usize = 0;
    while i < b.len()
        invariant
            0 <= i <= b@.len() <= a@.len(),
            a@ == s@,
            b@ == prefix@,
            forall|k: int| 0 <= k < i ==> a@[k] == b@[k],
        decreases b@.len() - i,
    {
        if a[i] != b[i] {
            assert(s@.subrange(0, prefix@.len() as int)[i as int] != prefix@[i as int]);
            return false;
        }
        i += 1;
    }
    assert(s@.subrange(0, prefix@.len() as int) =~= prefix@);
    true
}

/// Whether two texts are equal, compared byte by byte.
pub fn text_equals(a: &str, b: &str) -> (r: bool)
    ensures
        r == (a@ == b@),
{
    let x = a.as_bytes();
    let y = b.as_bytes();
    if x.len() != y.len() {
        proof {
            if a@ == b@ {
                assert(x@ == y@);
            }
        }
        return false;
    }
    let mut i: usize = 0;
    while i < x.len()
        invariant
            0 <= i <= x@.len(),
            x@.len() == y@.len(),
            x@ == a.spec_bytes(),
            y@ == b.spec_bytes(),
            forall|k: int| 0 <= k < i ==> x@[k] == y@[k],
        decreases x@.len() - i,
    {
        if x[i] != y[i] {
            proof {
                if a@ == b@ {
                    assert(x@ == y@);
                }
            }
            return false;
        }
        i += 1;
    }
    proof {
        assert(x@ =~= y@);
        assert(vstd::utf8::decode_utf8(x@) == a@);
        assert(vstd::utf8::decode_utf8(y@) == b@);
    }
    true
}

} // verus!
