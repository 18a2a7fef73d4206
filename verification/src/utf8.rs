//! Well-formed UTF-8 byte sequences and their scalar-value boundaries.
//!
//! The editing core addresses its buffer by byte offset; every offset the
//! model stores must sit on the boundary of an encoded scalar value.  This
//! module defines what a valid UTF-8 sequence is, what a boundary is, and
//! proves the facts the buffer operations rely on: splicing valid text at
//! boundaries yields valid text, and boundaries survive such splices.

use vstd::prelude::*;

verus! {

/// Length in bytes of the encoded scalar value that begins with leading
/// byte `b`; 1 for bytes that cannot begin a sequence, so the function is
/// total.
pub open spec fn char_len(b: u8) -> int {
    if b < 0x80 {
        1
    } else if 0xC2 <= b && b < 0xE0 {
        2
    } else if 0xE0 <= b && b < 0xF0 {
        3
    } else if 0xF0 <= b && b <= 0xF4 {
        4
    } else {
        1
    }
}

/// `b` is a UTF-8 continuation byte.
pub open spec fn is_cont(b: u8) -> bool {
    0x80 <= b && b < 0xC0
}

/// The first scalar value of `s` is validly encoded: the leading byte is
/// legal, the continuation bytes are present, and the value is neither an
/// overlong encoding, a surrogate, nor above U+10FFFF.
pub open spec fn valid_first_char(s: Seq<u8>) -> bool {
    s.len() >= 1 && {
        let b0 = s[0];
        if b0 < 0x80 {
            true
        } else if b0 < 0xC2 {
            false
        } else if b0 < 0xE0 {
            s.len() >= 2 && is_cont(s[1])
        } else if b0 == 0xE0 {
            s.len() >= 3 && 0xA0 <= s[1] && s[1] < 0xC0 && is_cont(s[2])
        } else if b0 == 0xED {
            s.len() >= 3 && 0x80 <= s[1] && s[1] < 0xA0 && is_cont(s[2])
        } else if b0 < 0xF0 {
            s.len() >= 3 && is_cont(s[1]) && is_cont(s[2])
        } else if b0 == 0xF0 {
            s.len() >= 4 && 0x90 <= s[1] && s[1] < 0xC0 && is_cont(s[2]) && is_cont(s[3])
        } else if b0 <= 0xF3 {
            s.len() >= 4 && is_cont(s[1]) && is_cont(s[2]) && is_cont(s[3])
        } else if b0 == 0xF4 {
            s.len() >= 4 && 0x80 <= s[1] && s[1] < 0x90 && is_cont(s[2]) && is_cont(s[3])
        } else {
            false
        }
    }
}

/// `s` is a well-formed UTF-8 sequence.
pub open spec fn is_utf8(s: Seq<u8>) -> bool
    decreases s.len(),
{
    s.len() == 0 || {
        let l = char_len(s[0]);
        valid_first_char(s) && l <= s.len() && is_utf8(s.skip(l))
    }
}

/// `o` sits on the boundary of an encoded scalar value of `s` (including
/// both ends of the sequence).
pub open spec fn is_boundary(s: Seq<u8>, o: int) -> bool
    decreases s.len(),
{
    if o == 0 {
        true
    } else if s.len() == 0 {
        false
    } else {
        let l = char_len(s[0]);
        l <= o && l <= s.len() && is_boundary(s.skip(l), o - l)
    }
}

/// The result of deleting `s[start..end]` and inserting `t` in its place.
pub open spec fn splice(s: Seq<u8>, start: int, end: int, t: Seq<u8>) -> Seq<u8> {
    s.take(start) + t + s.skip(end)
}

/// Boundaries lie within the sequence.
pub proof fn lemma_boundary_range(s: Seq<u8>, o: int)
    requires
        is_boundary(s, o),
    ensures
        0 <= o <= s.len(),
    decreases s.len(),
{
    if o != 0 {
        let l: int = char_len(s[0]);
        lemma_boundary_range(s.skip(l), o - l);
    }
}

/// The end of a well-formed sequence is a boundary.
pub proof fn lemma_len_is_boundary(s: Seq<u8>)
    requires
        is_utf8(s),
    ensures
        is_boundary(s, s.len() as int),
    decreases s.len(),
{
    if s.len() != 0 {
        let l: int = char_len(s[0]);
        lemma_len_is_boundary(s.skip(l));
    }
}

/// In a well-formed sequence, an interior offset is a boundary exactly when
/// the byte there is not a continuation byte.
pub proof fn lemma_boundary_iff_not_cont(s: Seq<u8>, o: int)
    requires
        is_utf8(s),
        0 <= o < s.len(),
    ensures
        is_boundary(s, o) <==> !is_cont(s[o]),
    decreases s.len(),
{
    let l: int = char_len(s[0]);
    if o == 0 {
        assert(!is_cont(s[0]));
    } else if o < l {
        assert(is_cont(s[o]));
        assert(!is_boundary(s, o));
    } else {
        lemma_boundary_iff_not_cont(s.skip(l), o - l);
        assert(s.skip(l)[o - l] == s[o]);
    }
}

/// Cutting a well-formed sequence at a boundary leaves two well-formed
/// pieces.
pub proof fn lemma_utf8_take_skip(s: Seq<u8>, o: int)
    requires
        is_utf8(s),
        is_boundary(s, o),
    ensures
        is_utf8(s.take(o)),
        is_utf8(s.skip(o)),
    decreases s.len(),
{
    lemma_boundary_range(s, o);
    if o == 0 {
        assert(s.take(0) =~= Seq::<u8>::empty());
        assert(s.skip(0) =~= s);
    } else {
        let l: int = char_len(s[0]);
        lemma_utf8_take_skip(s.skip(l), o - l);
        assert(s.skip(l).skip(o - l) =~= s.skip(o));
        assert(s.take(o)[0] == s[0]);
        assert(valid_first_char(s.take(o)));
        assert(s.take(o).skip(l) =~= s.skip(l).take(o - l));
    }
}

/// Concatenating well-formed sequences yields a well-formed sequence.
pub proof fn lemma_utf8_append(a: Seq<u8>, b: Seq<u8>)
    requires
        is_utf8(a),
        is_utf8(b),
    ensures
        is_utf8(a + b),
    decreases a.len(),
{
    if a.len() == 0 {
        assert(a + b =~= b);
    } else {
        let l: int = char_len(a[0]);
        lemma_utf8_append(a.skip(l), b);
        assert((a + b)[0] == a[0]);
        assert(valid_first_char(a + b));
        assert((a + b).skip(l) =~= a.skip(l) + b);
    }
}

/// The seam of a concatenation of well-formed sequences is a boundary.
pub proof fn lemma_append_seam_is_boundary(a: Seq<u8>, b: Seq<u8>)
    requires
        is_utf8(a),
        is_utf8(b),
    ensures
        is_boundary(a + b, a.len() as int),
    decreases a.len(),
{
    if a.len() != 0 {
        let l: int = char_len(a[0]);
        lemma_append_seam_is_boundary(a.skip(l), b);
        assert((a + b)[0] == a[0]);
        assert((a + b).skip(l) =~= a.skip(l) + b);
    }
}

/// A boundary of `a` is a boundary of `a + b`.
pub proof fn lemma_boundary_prefix(a: Seq<u8>, b: Seq<u8>, o: int)
    requires
        is_boundary(a, o),
    ensures
        is_boundary(a + b, o),
    decreases a.len(),
{
    if o != 0 {
        let l: int = char_len(a[0]);
        assert((a + b)[0] == a[0]);
        lemma_boundary_prefix(a.skip(l), b, o - l);
        assert((a + b).skip(l) =~= a.skip(l) + b);
    }
}

/// Splicing well-formed text into a well-formed sequence at boundaries
/// yields a well-formed sequence, and both ends of the inserted text sit on
/// boundaries of the result.
pub proof fn lemma_splice_wf(s: Seq<u8>, start: int, end: int, t: Seq<u8>)
    requires
        is_utf8(s),
        is_utf8(t),
        0 <= start <= end <= s.len(),
        is_boundary(s, start),
        is_boundary(s, end),
    ensures
        is_utf8(splice(s, start, end, t)),
        is_boundary(splice(s, start, end, t), start),
        is_boundary(splice(s, start, end, t), start + t.len()),
        splice(s, start, end, t).len() == start + t.len() + (s.len() - end),
{
    lemma_utf8_take_skip(s, start);
    lemma_utf8_take_skip(s, end);
    lemma_utf8_append(s.take(start), t);
    lemma_utf8_append(s.take(start) + t, s.skip(end));
    lemma_append_seam_is_boundary(s.take(start) + t, s.skip(end));
    lemma_utf8_append(t, s.skip(end));
    lemma_append_seam_is_boundary(s.take(start), t + s.skip(end));
    assert(s.take(start) + t + s.skip(end) =~= s.take(start) + (t + s.skip(end)));
}

/// Largest scalar-value boundary at or below `o`: identity on offsets that
/// already sit on a boundary, otherwise the start of the value that `o`
/// splits.
pub open spec fn snap_down(s: Seq<u8>, o: int) -> int
    decreases o,
{
    if o <= 0 {
        0
    } else if o >= s.len() {
        o
    } else if !is_cont(s[o]) {
        o
    } else {
        snap_down(s, o - 1)
    }
}

/// Largest scalar-value boundary at or below `offset`: identity on offsets
/// that already sit on a boundary, otherwise steps back over the
/// continuation bytes of the value that `offset` splits.
pub fn snap_to_boundary(content: &Vec<u8>, offset: usize) -> (r: usize)
    requires
        is_utf8(content@),
        offset <= content@.len(),
    ensures
        r as int == snap_down(content@, offset as int),
        r <= offset,
        is_boundary(content@, r as int),
        forall|b: int| 0 <= b <= offset && is_boundary(content@, b) ==> b <= r,
        is_boundary(content@, offset as int) ==> r == offset,
{
    proof {
        lemma_len_is_boundary(content@);
    }
    let mut r: usize = offset;
    while r > 0 && r < content.len() && content[r] >= 0x80 && content[r] < 0xC0
        invariant
            r <= offset <= content@.len(),
            is_utf8(content@),
            snap_down(content@, offset as int) == snap_down(content@, r as int),
            forall|b: int| r < b <= offset && b <= content@.len() ==> !is_boundary(content@, b),
        decreases r,
    {
        proof {
            lemma_boundary_iff_not_cont(content@, r as int);
        }
        r = r - 1;
    }
    proof {
        if r > 0 && r < content@.len() {
            lemma_boundary_iff_not_cont(content@, r as int);
        }
        assert forall|b: int| 0 <= b <= offset && is_boundary(content@, b) implies b <= r by {
            if b > r {
                lemma_boundary_range(content@, b);
            }
        }
    }
    r
}

} // verus!
