//! Grapheme-cluster boundaries: the units the cursor moves and deletes by.
//!
//! Boundaries follow extended grapheme cluster segmentation, so combining
//! marks and multi-scalar emoji move as one unit.  Segmentation itself is
//! delegated to the unicode-segmentation crate; everything around it — the
//! search for the nearest boundary and the guarantees the editor relies on
//! — is verified against the segmentation's stated shape.

use vstd::prelude::*;
use unicode_segmentation::UnicodeSegmentation;
use crate::utf8::is_boundary;
use crate::utf8::is_cont;
use crate::utf8::is_utf8;

verus! {

/// Byte indices at which the extended grapheme clusters of `s` begin, in
/// increasing order.
pub uninterp spec fn grapheme_starts_of(s: Seq<u8>) -> Seq<int>;

/// The shape segmentation gives the cluster starts of `s`: strictly
/// increasing indices within the text, each at the start of an encoded
/// scalar value.
pub open spec fn grapheme_starts_wf(s: Seq<u8>) -> bool {
    let g = grapheme_starts_of(s);
    &&& forall|k: int, j: int| 0 <= k < j < g.len() ==> g[k] < g[j]
    &&& forall|k: int| 0 <= k < g.len() ==> 0 <= #[trigger] g[k] < s.len()
    &&& forall|k: int| 0 <= k < g.len() ==> !is_cont(s[#[trigger] g[k]])
}

/// Relies on unicode_segmentation::UnicodeSegmentation::grapheme_indices
/// (extended clusters): it yields the byte index of each grapheme cluster
/// of the text.  The clusters partition the text into non-empty pieces, so
/// the indices are strictly increasing, lie within the text, and each sits
/// at the start of an encoded scalar value; an empty text has none.
#[verifier::external_body]
fn grapheme_starts(content: &Vec<u8>) -> (r: Vec<usize>)
    requires
        is_utf8(content@),
    ensures
        r@.map_values(|x: usize| x as int) == grapheme_starts_of(content@),
        forall|k: int| 0 <= k < r@.len() ==> (#[trigger] r@[k]) < content@.len(),
        forall|k: int, j: int| 0 <= k < j < r@.len() ==> r@[k] < r@[j],
        forall|k: int| 0 <= k < r@.len() ==> !is_cont(content@[#[trigger] r@[k] as int]),
{
    let s = core::str::from_utf8(content).unwrap();
    s.grapheme_indices(true).map(|(i, _g)| i).collect()
}

/// Largest entry of `starts` strictly below `o`, or 0 when there is none.
pub open spec fn last_below(starts: Seq<int>, o: int) -> int
    decreases starts.len(),
{
    if starts.len() == 0 {
        0
    } else if starts.last() < o {
        starts.last()
    } else {
        last_below(starts.drop_last(), o)
    }
}

/// Smallest entry of `starts` strictly above `o`, or `len` when there is
/// none.
pub open spec fn first_above(starts: Seq<int>, o: int, len: int) -> int
    decreases starts.len(),
{
    if starts.len() == 0 {
        len
    } else if starts.first() > o {
        starts.first()
    } else {
        first_above(starts.skip(1), o, len)
    }
}

/// Previous grapheme boundary: the largest cluster start strictly before
/// `o`, or 0.
pub open spec fn prev_grapheme_boundary(s: Seq<u8>, o: int) -> int {
    last_below(grapheme_starts_of(s), o)
}

/// Next grapheme boundary: the smallest cluster start strictly after `o`,
/// or the end of the content.
pub open spec fn next_grapheme_boundary(s: Seq<u8>, o: int) -> int {
    first_above(grapheme_starts_of(s), o, s.len() as int)
}

proof fn lemma_last_below_facts(starts: Seq<int>, o: int)
    requires
        forall|k: int, j: int| 0 <= k < j < starts.len() ==> starts[k] < starts[j],
    ensures
        last_below(starts, o) == 0 || exists|k: int|
            0 <= k < starts.len() && starts[k] == last_below(starts, o) && starts[k] < o,
        forall|k: int| 0 <= k < starts.len() && #[trigger] starts[k] < o ==> starts[k]
            <= last_below(starts, o),
    decreases starts.len(),
{
    if starts.len() > 0 {
        if starts.last() < o {
            assert forall|k: int| 0 <= k < starts.len() && #[trigger] starts[k] < o implies
                starts[k] <= last_below(starts, o) by {
                assert(starts[starts.len() - 1] == starts.last());
            }
        } else {
            lemma_last_below_facts(starts.drop_last(), o);
            assert forall|k: int| 0 <= k < starts.len() && #[trigger] starts[k] < o implies
                starts[k] <= last_below(starts, o) by {
                assert(starts[starts.len() - 1] == starts.last());
                assert(starts.drop_last()[k] == starts[k]);
            }
            if last_below(starts.drop_last(), o) != 0 {
                let k0 = choose|k: int|
                    0 <= k < starts.drop_last().len() && starts.drop_last()[k] == last_below(
                        starts.drop_last(),
                        o,
                    ) && starts.drop_last()[k] < o;
                assert(starts[k0] == starts.drop_last()[k0]);
            }
        }
    }
}

proof fn lemma_first_above_facts(starts: Seq<int>, o: int, len: int)
    requires
        forall|k: int, j: int| 0 <= k < j < starts.len() ==> starts[k] < starts[j],
    ensures
        first_above(starts, o, len) == len || exists|k: int|
            0 <= k < starts.len() && starts[k] == first_above(starts, o, len) && starts[k] > o,
        forall|k: int| 0 <= k < starts.len() && #[trigger] starts[k] > o ==> first_above(
            starts,
            o,
            len,
        ) <= starts[k],
    decreases starts.len(),
{
    if starts.len() > 0 {
        if starts.first() > o {
            assert(starts[0] == starts.first());
        } else {
            lemma_first_above_facts(starts.skip(1), o, len);
            assert forall|k: int| 0 <= k < starts.len() && #[trigger] starts[k] > o implies
                first_above(starts, o, len) <= starts[k] by {
                assert(k > 0);
                assert(starts.skip(1)[k - 1] == starts[k]);
            }
            if first_above(starts.skip(1), o, len) != len {
                let k0 = choose|k: int|
                    0 <= k < starts.skip(1).len() && starts.skip(1)[k] == first_above(
                        starts.skip(1),
                        o,
                        len,
                    ) && starts.skip(1)[k] > o;
                assert(starts[k0 + 1] == starts.skip(1)[k0]);
            }
        }
    }
}

/// Grapheme boundary monotonicity: over any strictly increasing sequence of
/// cluster starts within a text of length `len` — the shape the
/// segmentation yields — stepping from `o` to the next boundary and back
/// lands at or before `o`, and stepping to the previous boundary and
/// forward lands at or after `o`.
pub proof fn lemma_grapheme_boundary_monotonic(starts: Seq<int>, o: int, len: int)
    requires
        0 <= o <= len,
        forall|k: int, j: int| 0 <= k < j < starts.len() ==> starts[k] < starts[j],
        forall|k: int| 0 <= k < starts.len() ==> 0 <= #[trigger] starts[k] < len,
    ensures
        last_below(starts, first_above(starts, o, len)) <= o,
        o <= first_above(starts, last_below(starts, o), len),
{
    let n = first_above(starts, o, len);
    let p = last_below(starts, o);
    lemma_first_above_facts(starts, o, len);
    lemma_last_below_facts(starts, o);
    lemma_last_below_facts(starts, n);
    lemma_first_above_facts(starts, p, len);
}

/// The same law at the content level: from any offset of a text whose
/// cluster starts have the shape segmentation gives them, stepping to the
/// next grapheme boundary and back lands at or before the offset, and
/// stepping back and forward lands at or after it.
pub proof fn lemma_grapheme_boundary_monotonic_for(s: Seq<u8>, o: int)
    requires
        grapheme_starts_wf(s),
        0 <= o <= s.len(),
    ensures
        prev_grapheme_boundary(s, next_grapheme_boundary(s, o)) <= o,
        o <= next_grapheme_boundary(s, prev_grapheme_boundary(s, o)),
{
    lemma_grapheme_boundary_monotonic(grapheme_starts_of(s), o, s.len() as int);
}

/// Largest grapheme boundary strictly before `offset`, or 0: the unit the
/// caret steps over moving left.
pub fn previous_boundary(content: &Vec<u8>, offset: usize) -> (r: usize)
    requires
        is_utf8(content@),
    ensures
        r as int == prev_grapheme_boundary(content@, offset as int),
        is_boundary(content@, r as int),
        r <= offset,
        r <= content@.len(),
        offset > 0 ==> r < offset,
        grapheme_starts_wf(content@),
{
    let ghost s = content@;
    let starts = grapheme_starts(content);
    let ghost g = grapheme_starts_of(s);
    proof {
        assert forall|k: int| 0 <= k < g.len() implies 0 <= #[trigger] g[k] < s.len() && !is_cont(
            s[g[k]],
        ) by {
            assert(g[k] == starts@[k] as int);
        }
        assert forall|k: int, j: int| 0 <= k < j < g.len() implies g[k] < g[j] by {
            assert(g[k] == starts@[k] as int);
            assert(g[j] == starts@[j] as int);
        }
        assert(grapheme_starts_wf(s));
    }
    let mut i: usize = starts.len();
    proof {
        assert(g.take(i as int) =~= g);
    }
    while i > 0
        invariant
            s == content@,
            is_utf8(s),
            g == grapheme_starts_of(s),
            g == starts@.map_values(|x: usize| x as int),
            i <= starts@.len(),
            grapheme_starts_wf(s),
            last_below(g, offset as int) == last_below(g.take(i as int), offset as int),
        decreases i,
    {
        let v: usize = starts[i - 1];
        proof {
            assert(g.take(i as int).last() == g[i - 1]);
            assert(g.take(i as int).drop_last() =~= g.take(i - 1));
        }
        if v < offset {
            proof {
                crate::utf8::lemma_boundary_iff_not_cont(s, v as int);
            }
            return v;
        }
        i = i - 1;
    }
    proof {
        assert(g.take(0) =~= Seq::<int>::empty());
    }
    0
}

/// Smallest grapheme boundary strictly after `offset`, or the end of the
/// content: the unit the caret steps over moving right.
pub fn next_boundary(content: &Vec<u8>, offset: usize) -> (r: usize)
    requires
        is_utf8(content@),
        offset <= content@.len(),
    ensures
        r as int == next_grapheme_boundary(content@, offset as int),
        is_boundary(content@, r as int),
        offset <= r <= content@.len(),
        offset < content@.len() ==> offset < r,
        grapheme_starts_wf(content@),
{
    let ghost s = content@;
    let starts = grapheme_starts(content);
    let ghost g = grapheme_starts_of(s);
    proof {
        assert forall|k: int| 0 <= k < g.len() implies 0 <= #[trigger] g[k] < s.len() && !is_cont(
            s[g[k]],
        ) by {
            assert(g[k] == starts@[k] as int);
        }
        assert forall|k: int, j: int| 0 <= k < j < g.len() implies g[k] < g[j] by {
            assert(g[k] == starts@[k] as int);
            assert(g[j] == starts@[j] as int);
        }
        assert(grapheme_starts_wf(s));
    }
    let mut i: usize = 0;
    proof {
        assert(g.skip(0) =~= g);
    }
    while i < starts.len()
        invariant
            s == content@,
            is_utf8(s),
            g == grapheme_starts_of(s),
            g == starts@.map_values(|x: usize| x as int),
            i <= starts@.len(),
            grapheme_starts_wf(s),
            first_above(g, offset as int, s.len() as int) == first_above(
                g.skip(i as int),
                offset as int,
                s.len() as int,
            ),
        decreases starts@.len() - i,
    {
        let v: usize = starts[i];
        proof {
            assert(g.skip(i as int).first() == g[i as int]);
            assert(g.skip(i as int).skip(1) =~= g.skip(i + 1));
        }
        if v > offset {
            proof {
                crate::utf8::lemma_boundary_iff_not_cont(s, v as int);
            }
            return v;
        }
        i = i + 1;
    }
    proof {
        assert(g.skip(starts@.len() as int) =~= Seq::<int>::empty());
        crate::utf8::lemma_len_is_boundary(s);
    }
    content.len()
}

} // verus!
