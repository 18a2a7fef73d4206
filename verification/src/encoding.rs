//! Bridge between native byte offsets and UTF-16 code-unit offsets.
//!
//! The input-method protocol addresses text in UTF-16 code units while the
//! buffer is byte-addressed.  Conversion walks scalar values from the start
//! of the buffer, accumulating both encodings' unit counts in lock-step and
//! stopping as soon as the target is reached or passed; an offset that does
//! not sit on a valid boundary is clamped to the next one, never a panic.

use vstd::prelude::*;
use crate::utf8::char_len;
use crate::utf8::is_boundary;
use crate::utf8::is_utf8;

verus! {

/// UTF-16 code units taken by a scalar value whose UTF-8 encoding is `l`
/// bytes long: values outside the basic multilingual plane (4 UTF-8 bytes)
/// take a surrogate pair, all others one unit.
pub open spec fn utf16_units(l: int) -> int {
    if l == 4 {
        2
    } else {
        1
    }
}

/// UTF-16 code-unit offset corresponding to native byte offset `o` of `s`:
/// the total units of the scalar values that begin strictly before `o`.
pub open spec fn native_to_utf16(s: Seq<u8>, o: int) -> int
    decreases s.len(),
{
    if s.len() == 0 || o <= 0 {
        0
    } else {
        let l = if char_len(s[0]) <= s.len() { char_len(s[0]) } else { s.len() as int };
        utf16_units(l) + native_to_utf16(s.skip(l), o - l)
    }
}

/// Native byte offset corresponding to UTF-16 offset `o16` of `s`: the
/// total bytes of the scalar values that begin strictly before `o16`.
pub open spec fn utf16_to_native(s: Seq<u8>, o16: int) -> int
    decreases s.len(),
{
    if s.len() == 0 || o16 <= 0 {
        0
    } else {
        let l = if char_len(s[0]) <= s.len() { char_len(s[0]) } else { s.len() as int };
        l + utf16_to_native(s.skip(l), o16 - utf16_units(l))
    }
}

pub proof fn lemma_native_to_utf16_nonneg(s: Seq<u8>, o: int)
    ensures
        0 <= native_to_utf16(s, o),
    decreases s.len(),
{
    if s.len() != 0 && o > 0 {
        let l: int = if char_len(s[0]) <= s.len() { char_len(s[0]) } else { s.len() as int };
        lemma_native_to_utf16_nonneg(s.skip(l), o - l);
    }
}

/// Conversion to native offsets lands on a scalar-value boundary within the
/// sequence, whatever UTF-16 offset is asked for.
pub proof fn lemma_utf16_to_native_is_boundary(s: Seq<u8>, o16: int)
    requires
        is_utf8(s),
    ensures
        0 <= utf16_to_native(s, o16) <= s.len(),
        is_boundary(s, utf16_to_native(s, o16)),
    decreases s.len(),
{
    if s.len() != 0 && o16 > 0 {
        let l: int = char_len(s[0]);
        lemma_utf16_to_native_is_boundary(s.skip(l), o16 - utf16_units(l));
    }
}

/// Conversion to native offsets is monotone, so an ordered UTF-16 range
/// converts to an ordered native range.
pub proof fn lemma_utf16_to_native_monotone(s: Seq<u8>, a: int, b: int)
    requires
        a <= b,
    ensures
        utf16_to_native(s, a) <= utf16_to_native(s, b),
    decreases s.len(),
{
    if s.len() != 0 {
        let l: int = if char_len(s[0]) <= s.len() { char_len(s[0]) } else { s.len() as int };
        if a > 0 {
            lemma_utf16_to_native_monotone(s.skip(l), a - utf16_units(l), b - utf16_units(l));
        } else if b > 0 {
            lemma_utf16_to_native_nonneg(s, b);
        }
    }
}

pub proof fn lemma_utf16_to_native_nonneg(s: Seq<u8>, o16: int)
    ensures
        0 <= utf16_to_native(s, o16),
    decreases s.len(),
{
    if s.len() != 0 && o16 > 0 {
        let l: int = if char_len(s[0]) <= s.len() { char_len(s[0]) } else { s.len() as int };
        lemma_utf16_to_native_nonneg(s.skip(l), o16 - utf16_units(l));
    }
}

/// Round trip: converting a valid native boundary offset to UTF-16 and back
/// is the identity.
pub proof fn lemma_utf16_round_trip(s: Seq<u8>, o: int)
    requires
        is_utf8(s),
        is_boundary(s, o),
    ensures
        utf16_to_native(s, native_to_utf16(s, o)) == o,
    decreases s.len(),
{
    if o != 0 {
        let l: int = char_len(s[0]);
        lemma_utf16_round_trip(s.skip(l), o - l);
        lemma_native_to_utf16_nonneg(s.skip(l), o - l);
    }
}

/// Number of bytes of the scalar value that begins with byte `b`.
pub fn char_len_exec(b: u8) -> (l: usize)
    ensures
        l as int == char_len(b),
        1 <= l <= 4,
{
    if b < 0x80 {
        1
    } else if 0xC2 <= b && b < 0xE0 {
        2
    } else if 0xE0 <= b && b < 0xF0 {
        3
    } else if 0xF0 <= b && b <= 0xF4 {
        4
    } else {
        1
    }
}

/// Native byte offset for UTF-16 offset `offset16`, clamped to the nearest
/// following boundary and to the end of the content.
pub fn offset_from_utf16(content: &Vec<u8>, offset16: usize) -> (r: usize)
    requires
        is_utf8(content@),
    ensures
        r as int == utf16_to_native(content@, offset16 as int),
        r <= content@.len(),
        is_boundary(content@, r as int),
{
    let ghost s = content@;
    proof {
        assert(s.skip(0) =~= s);
    }
    let mut pos: usize = 0;
    let mut units: usize = 0;
    while pos < content.len() && units < offset16
        invariant
            is_utf8(s),
            s == content@,
            units <= pos <= s.len(),
            is_utf8(s.skip(pos as int)),
            is_boundary(s, pos as int),
            utf16_to_native(s, offset16 as int) == pos + utf16_to_native(
                s.skip(pos as int),
                offset16 - units,
            ),
        decreases s.len() - pos,
    {
        let l: usize = char_len_exec(content[pos]);
        let ghost rest = s.skip(pos as int);
        proof {
            assert(rest[0] == s[pos as int]);
            assert(char_len(rest[0]) <= rest.len());
            assert(rest.skip(l as int) =~= s.skip(pos + l as int));
        }
        let u: usize = if l == 4 { 2 } else { 1 };
        proof {
            assert(is_boundary(rest.skip(l as int), 0));
            assert(is_boundary(rest, l as int));
            lemma_boundary_shift(s, pos as int, l as int);
        }
        pos = pos + l;
        units = units + u;
    }
    proof {
        if pos == s.len() {
            assert(s.skip(pos as int) =~= Seq::<u8>::empty());
        }
    }
    pos
}

/// A boundary of the tail starting at boundary `a` is a boundary of the
/// whole sequence.
pub proof fn lemma_boundary_shift(s: Seq<u8>, a: int, b: int)
    requires
        is_boundary(s, a),
        is_boundary(s.skip(a), b),
        0 <= a <= s.len(),
        0 <= b,
    ensures
        is_boundary(s, a + b),
    decreases s.len(),
{
    if a == 0 {
        assert(s.skip(0) =~= s);
    } else {
        let l: int = char_len(s[0]);
        assert(s.skip(a) =~= s.skip(l).skip(a - l));
        lemma_boundary_shift(s.skip(l), a - l, b);
    }
}

/// UTF-16 code-unit offset for native byte offset `offset`, clamping an
/// offset inside a scalar value to the unit after it.
pub fn offset_to_utf16(content: &Vec<u8>, offset: usize) -> (r: usize)
    requires
        is_utf8(content@),
    ensures
        r as int == native_to_utf16(content@, offset as int),
        r <= content@.len(),
{
    let ghost s = content@;
    proof {
        assert(s.skip(0) =~= s);
    }
    let mut pos: usize = 0;
    let mut units: usize = 0;
    while pos < content.len() && pos < offset
        invariant
            is_utf8(s),
            s == content@,
            units <= pos <= s.len(),
            is_utf8(s.skip(pos as int)),
            native_to_utf16(s, offset as int) == units + native_to_utf16(
                s.skip(pos as int),
                offset - pos,
            ),
        decreases s.len() - pos,
    {
        let l: usize = char_len_exec(content[pos]);
        let ghost rest = s.skip(pos as int);
        proof {
            assert(rest[0] == s[pos as int]);
            assert(char_len(rest[0]) <= rest.len());
            assert(rest.skip(l as int) =~= s.skip(pos + l as int));
        }
        let u: usize = if l == 4 { 2 } else { 1 };
        pos = pos + l;
        units = units + u;
    }
    proof {
        if pos >= s.len() {
            assert(s.skip(pos as int) =~= Seq::<u8>::empty());
        }
    }
    units
}

} // verus!
