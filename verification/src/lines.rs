//! Line queries over the buffer: which line an offset is on, where a line
//! starts and ends, and how long it is.
//!
//! Lines are maximal runs of content not containing the separator byte
//! `0x0A`; they are always recomputed from the current content, never
//! cached, so they cannot desynchronize from it.  An offset exactly at a
//! separator belongs to the line ending there.  Queries for lines past the
//! end of the content clamp to the content length (length queries to 0)
//! rather than failing.

use vstd::prelude::*;
use crate::utf8::is_boundary;
use crate::utf8::is_utf8;

verus! {

/// Number of lines of `s`: one more than the number of separators.
pub open spec fn line_count(s: Seq<u8>) -> int
    decreases s.len(),
{
    if s.len() == 0 {
        1
    } else if s[0] == 0x0A {
        1 + line_count(s.skip(1))
    } else {
        line_count(s.skip(1))
    }
}

/// Index of the line containing offset `o`: the number of separators
/// strictly before `o`.
pub open spec fn line_of(s: Seq<u8>, o: int) -> int
    decreases s.len(),
{
    if s.len() == 0 || o <= 0 {
        0
    } else if s[0] == 0x0A {
        1 + line_of(s.skip(1), o - 1)
    } else {
        line_of(s.skip(1), o - 1)
    }
}

/// First offset of line `i`: the offset just after the `i`-th separator,
/// clamped to the content length when fewer lines exist.
pub open spec fn line_start(s: Seq<u8>, i: int) -> int
    decreases s.len(),
{
    if i <= 0 || s.len() == 0 {
        0
    } else if s[0] == 0x0A {
        1 + line_start(s.skip(1), i - 1)
    } else {
        1 + line_start(s.skip(1), i)
    }
}

/// Offset just past the last byte of line `i`, exclusive of the separator,
/// clamped to the content length when fewer lines exist.
pub open spec fn line_end(s: Seq<u8>, i: int) -> int
    decreases s.len(),
{
    if s.len() == 0 {
        0
    } else if s[0] == 0x0A {
        if i <= 0 {
            0
        } else {
            1 + line_end(s.skip(1), i - 1)
        }
    } else {
        1 + line_end(s.skip(1), i)
    }
}

/// Length of line `i` in bytes; 0 for a line index past the end.
pub open spec fn line_len(s: Seq<u8>, i: int) -> int {
    line_end(s, i) - line_start(s, i)
}

/// A line start lies in the content and is preceded by a separator unless
/// it is at one of the content's ends.
pub proof fn lemma_line_start_char(s: Seq<u8>, i: int)
    requires
        0 <= i,
    ensures
        0 <= line_start(s, i) <= s.len(),
        line_start(s, i) == 0 || line_start(s, i) == s.len() || s[line_start(s, i) - 1] == 0x0A,
        i > 0 && s.len() > 0 ==> line_start(s, i) >= 1,
    decreases s.len(),
{
    if i > 0 && s.len() > 0 {
        if s[0] == 0x0A {
            lemma_line_start_char(s.skip(1), i - 1);
        } else {
            lemma_line_start_char(s.skip(1), i);
        }
    }
}

/// A line end lies in the content and holds a separator unless it is the
/// content's end.
pub proof fn lemma_line_end_char(s: Seq<u8>, i: int)
    requires
        0 <= i,
    ensures
        0 <= line_end(s, i) <= s.len(),
        line_end(s, i) == s.len() || s[line_end(s, i)] == 0x0A,
    decreases s.len(),
{
    if s.len() > 0 {
        if s[0] == 0x0A {
            if i > 0 {
                lemma_line_end_char(s.skip(1), i - 1);
            }
        } else {
            lemma_line_end_char(s.skip(1), i);
        }
    }
}

/// A line starts no later than it ends.
pub proof fn lemma_line_start_le_end(s: Seq<u8>, i: int)
    requires
        0 <= i,
    ensures
        line_start(s, i) <= line_end(s, i),
    decreases s.len(),
{
    if s.len() > 0 {
        if s[0] == 0x0A {
            if i > 0 {
                lemma_line_start_le_end(s.skip(1), i - 1);
            } else {
                lemma_line_end_char(s, 0);
            }
        } else {
            lemma_line_start_le_end(s.skip(1), i);
        }
    }
}

pub proof fn lemma_line_count_ge_1(s: Seq<u8>)
    ensures
        line_count(s) >= 1,
    decreases s.len(),
{
    if s.len() > 0 {
        lemma_line_count_ge_1(s.skip(1));
    }
}

pub proof fn lemma_line_count_le(s: Seq<u8>)
    ensures
        line_count(s) <= s.len() + 1,
    decreases s.len(),
{
    if s.len() > 0 {
        lemma_line_count_le(s.skip(1));
    }
}

/// Every offset within the content lies on a line.
pub proof fn lemma_line_of_in_range(s: Seq<u8>, o: int)
    requires
        0 <= o <= s.len(),
    ensures
        0 <= line_of(s, o) < line_count(s),
    decreases s.len(),
{
    lemma_line_count_ge_1(s);
    if s.len() > 0 && o > 0 {
        lemma_line_of_in_range(s.skip(1), o - 1);
    }
}

/// An offset lies between the bounds of its own line.
pub proof fn lemma_line_of_between(s: Seq<u8>, o: int)
    requires
        0 <= o <= s.len(),
    ensures
        line_start(s, line_of(s, o)) <= o <= line_end(s, line_of(s, o)),
    decreases s.len(),
{
    lemma_line_of_in_range(s, o);
    lemma_line_end_char(s, line_of(s, o));
    if s.len() > 0 && o > 0 {
        lemma_line_of_in_range(s.skip(1), o - 1);
        lemma_line_of_between(s.skip(1), o - 1);
    }
}

/// A line ends at the content's end exactly when it is the last line (or
/// past it).
pub proof fn lemma_line_end_last(s: Seq<u8>, i: int)
    requires
        0 <= i,
    ensures
        (line_end(s, i) == s.len()) <==> (i >= line_count(s) - 1),
    decreases s.len(),
{
    lemma_line_end_char(s, i);
    if s.len() > 0 {
        if s[0] == 0x0A {
            lemma_line_count_ge_1(s.skip(1));
            if i > 0 {
                lemma_line_end_last(s.skip(1), i - 1);
            }
        } else {
            lemma_line_end_last(s.skip(1), i);
        }
    }
}

/// In well-formed content, line starts sit on scalar-value boundaries.
pub proof fn lemma_line_start_boundary(s: Seq<u8>, i: int)
    requires
        is_utf8(s),
        0 <= i,
    ensures
        is_boundary(s, line_start(s, i)),
{
    lemma_line_start_char(s, i);
    let p: int = line_start(s, i);
    if p == s.len() {
        crate::utf8::lemma_len_is_boundary(s);
    } else if p > 0 {
        crate::utf8::lemma_boundary_iff_not_cont(s, p - 1);
        crate::utf8::lemma_utf8_take_skip(s, p - 1);
        assert(s.skip(p - 1)[0] == s[p - 1]);
        assert(is_boundary(s.skip(p - 1).skip(1), 0));
        assert(is_boundary(s.skip(p - 1), 1));
        crate::encoding::lemma_boundary_shift(s, p - 1, 1);
    }
}

/// In well-formed content, line ends sit on scalar-value boundaries.
pub proof fn lemma_line_end_boundary(s: Seq<u8>, i: int)
    requires
        is_utf8(s),
        0 <= i,
    ensures
        is_boundary(s, line_end(s, i)),
{
    lemma_line_end_char(s, i);
    let q: int = line_end(s, i);
    if q == s.len() {
        crate::utf8::lemma_len_is_boundary(s);
    } else {
        crate::utf8::lemma_boundary_iff_not_cont(s, q);
    }
}

/// Index of the line containing `offset`.
pub fn line_at_offset(content: &Vec<u8>, offset: usize) -> (r: usize)
    requires
        offset <= content@.len(),
    ensures
        r as int == line_of(content@, offset as int),
{
    let ghost s = content@;
    proof {
        assert(s.skip(0) =~= s);
    }
    let mut pos: usize = 0;
    let mut count: usize = 0;
    while pos < offset
        invariant
            s == content@,
            count <= pos <= offset <= s.len(),
            line_of(s, offset as int) == count + line_of(s.skip(pos as int), offset - pos),
        decreases offset - pos,
    {
        proof {
            assert(s.skip(pos as int)[0] == s[pos as int]);
            assert(s.skip(pos as int).skip(1) =~= s.skip(pos + 1));
        }
        if content[pos] == 0x0A {
            count = count + 1;
        }
        pos = pos + 1;
    }
    count
}

/// First offset of line `line_number`, or the content length when there is
/// no such line.
pub fn offset_at_line_start(content: &Vec<u8>, line_number: usize) -> (r: usize)
    ensures
        r as int == line_start(content@, line_number as int),
        r <= content@.len(),
{
    let ghost s = content@;
    proof {
        assert(s.skip(0) =~= s);
        lemma_line_start_char(s, line_number as int);
    }
    let mut pos: usize = 0;
    let mut rem: usize = line_number;
    while pos < content.len() && rem > 0
        invariant
            s == content@,
            pos <= s.len(),
            line_start(s, line_number as int) == pos + line_start(s.skip(pos as int), rem as int),
        decreases s.len() - pos,
    {
        proof {
            assert(s.skip(pos as int)[0] == s[pos as int]);
            assert(s.skip(pos as int).skip(1) =~= s.skip(pos + 1));
        }
        if content[pos] == 0x0A {
            rem = rem - 1;
        }
        pos = pos + 1;
    }
    proof {
        if pos == s.len() {
            assert(s.skip(pos as int) =~= Seq::<u8>::empty());
        }
    }
    pos
}

/// Offset just past the last byte of line `line_number`, exclusive of the
/// separator, or the content length when there is no such line.
pub fn offset_at_line_end(content: &Vec<u8>, line_number: usize) -> (r: usize)
    ensures
        r as int == line_end(content@, line_number as int),
        r <= content@.len(),
{
    let ghost s = content@;
    proof {
        assert(s.skip(0) =~= s);
        lemma_line_end_char(s, line_number as int);
    }
    let mut pos: usize = 0;
    let mut rem: usize = line_number;
    while pos < content.len()
        invariant_except_break
            s == content@,
            pos <= s.len(),
            line_end(s, line_number as int) == pos + line_end(s.skip(pos as int), rem as int),
        ensures
            s == content@,
            pos <= s.len(),
            line_end(s, line_number as int) == pos as int,
        decreases s.len() - pos,
    {
        proof {
            assert(s.skip(pos as int)[0] == s[pos as int]);
            assert(s.skip(pos as int).skip(1) =~= s.skip(pos + 1));
        }
        if content[pos] == 0x0A {
            if rem == 0 {
                break;
            }
            rem = rem - 1;
        }
        pos = pos + 1;
        proof {
            if pos == s.len() {
                assert(s.skip(pos as int) =~= Seq::<u8>::empty());
            }
        }
    }
    pos
}

/// Length in bytes of line `line_number`; 0 when there is no such line.
pub fn line_length(content: &Vec<u8>, line_number: usize) -> (r: usize)
    ensures
        r as int == line_len(content@, line_number as int),
{
    proof {
        lemma_line_start_le_end(content@, line_number as int);
    }
    let start = offset_at_line_start(content, line_number);
    let end = offset_at_line_end(content, line_number);
    end - start
}

} // verus!
