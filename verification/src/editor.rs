//! The editing surface: a mutable UTF-8 buffer, a cursor/selection state
//! machine with direction tracking, an optional input-method composing
//! range, and the operations key, mouse, and input-method events drive.
//!
//! Every operation keeps the model well formed: the stored selection is
//! normalized (`start <= end`, with `reversed` naming the caret side), and
//! every stored offset sits on a scalar-value boundary of the content.

use vstd::prelude::*;
use crate::encoding::native_to_utf16;
use crate::encoding::utf16_to_native;
use crate::layout::BoundsPx;
use crate::layout::LineLayout;
use crate::layout::PointPx;
use crate::layout::VisualBounds;
use crate::utf8::is_boundary;
use crate::utf8::is_utf8;
use crate::utf8::splice;

verus! {

/// A contiguous range `[start, end)` of offsets: native byte offsets inside
/// the core, UTF-16 code-unit offsets at the input-method boundary.
#[derive(Clone, Copy, PartialEq, Eq, Structural, Debug)]
pub struct TextRange {
    pub start: usize,
    pub end: usize,
}

/// Mathematical state of the editing surface: the buffer content, the
/// normalized selection with its direction, and the composing range.
#[verifier::ext_equal]
pub ghost struct EditorModel {
    pub text: Seq<u8>,
    pub sel_start: int,
    pub sel_end: int,
    pub reversed: bool,
    pub marked: Option<(int, int)>,
}

/// Well-formedness: the content is valid UTF-8 and every stored offset is
/// an in-range scalar-value boundary, with the selection normalized.
pub open spec fn m_wf(m: EditorModel) -> bool {
    &&& is_utf8(m.text)
    &&& 0 <= m.sel_start <= m.sel_end <= m.text.len()
    &&& is_boundary(m.text, m.sel_start)
    &&& is_boundary(m.text, m.sel_end)
    &&& match m.marked {
        Option::Some(mk) => {
            &&& 0 <= mk.0 <= mk.1 <= m.text.len()
            &&& is_boundary(m.text, mk.0)
            &&& is_boundary(m.text, mk.1)
        },
        Option::None => true,
    }
}

/// The caret: the side of the selection the user is actively moving.
pub open spec fn caret_m(m: EditorModel) -> int {
    if m.reversed {
        m.sel_start
    } else {
        m.sel_end
    }
}

/// Collapse the selection to a caret at `o`.
pub open spec fn move_to_m(m: EditorModel, o: int) -> EditorModel {
    EditorModel { sel_start: o, sel_end: o, ..m }
}

/// Move the non-anchor bound to `o`; when this crosses the anchor, the
/// direction flips and the range is renormalized.
pub open spec fn select_to_m(m: EditorModel, o: int) -> EditorModel {
    let s = if m.reversed { o } else { m.sel_start };
    let e = if m.reversed { m.sel_end } else { o };
    if e < s {
        EditorModel { sel_start: e, sel_end: s, reversed: !m.reversed, ..m }
    } else {
        EditorModel { sel_start: s, sel_end: e, ..m }
    }
}

/// The native range an input-method edit applies to: the given UTF-16
/// range when there is one, else the composing range, else the selection.
pub open spec fn resolve_range_m(m: EditorModel, range16: Option<(int, int)>) -> (int, int) {
    match range16 {
        Option::Some(r16) => (utf16_to_native(m.text, r16.0), utf16_to_native(m.text, r16.1)),
        Option::None => match m.marked {
            Option::Some(mk) => mk,
            Option::None => (m.sel_start, m.sel_end),
        },
    }
}

/// Replace the resolved range with `t`: the selection collapses to just
/// after the inserted text and the composing range is cleared.
pub open spec fn replace_m(m: EditorModel, range16: Option<(int, int)>, t: Seq<u8>) -> EditorModel {
    let r = resolve_range_m(m, range16);
    EditorModel {
        text: splice(m.text, r.0, r.1, t),
        sel_start: r.0 + t.len(),
        sel_end: r.0 + t.len(),
        reversed: m.reversed,
        marked: Option::None,
    }
}

/// Replace the resolved range with `t` and mark the inserted span as
/// composing; the selection goes to the caller's sub-range of the inserted
/// text (given in UTF-16 units relative to it) or collapses to its end.
pub open spec fn replace_and_mark_m(
    m: EditorModel,
    range16: Option<(int, int)>,
    t: Seq<u8>,
    inner16: Option<(int, int)>,
) -> EditorModel {
    let r = resolve_range_m(m, range16);
    let sel = match inner16 {
        Option::Some(inr) => (r.0 + utf16_to_native(t, inr.0), r.0 + utf16_to_native(t, inr.1)),
        Option::None => (r.0 + t.len() as int, r.0 + t.len() as int),
    };
    EditorModel {
        text: splice(m.text, r.0, r.1, t),
        sel_start: sel.0,
        sel_end: sel.1,
        reversed: m.reversed,
        marked: Option::Some((r.0, r.0 + t.len() as int)),
    }
}

/// The in-memory editing surface for one note's content.
pub struct NoteEditor {
    content: Vec<u8>,
    selected_start: usize,
    selected_end: usize,
    selection_reversed: bool,
    marked_range: Option<TextRange>,
    last_layout: Option<LineLayout>,
    last_bounds: Option<BoundsPx>,
    is_selecting: bool,
}

impl View for NoteEditor {
    type V = EditorModel;

    closed spec fn view(&self) -> EditorModel {
        EditorModel {
            text: self.content@,
            sel_start: self.selected_start as int,
            sel_end: self.selected_end as int,
            reversed: self.selection_reversed,
            marked: match self.marked_range {
                Option::Some(r) => Option::Some((r.start as int, r.end as int)),
                Option::None => Option::None,
            },
        }
    }
}

impl NoteEditor {
    pub open spec fn wf(&self) -> bool {
        m_wf(self@)
    }

    /// Whether a mouse drag is in progress.
    pub closed spec fn selecting(&self) -> bool {
        self.is_selecting
    }

    /// The cached shaping of the first line, if a render has provided one.
    pub closed spec fn layout_view(&self) -> Option<Seq<int>> {
        match self.last_layout {
            Option::Some(l) => Option::Some(l@),
            Option::None => Option::None,
        }
    }

    /// The cached viewport bounds, if a render has provided them.
    pub closed spec fn bounds_view(&self) -> Option<BoundsPx> {
        self.last_bounds
    }

    /// The layout cache and drag state are untouched by an operation.
    pub open spec fn cache_unchanged(&self, other: &NoteEditor) -> bool {
        &&& self.layout_view() == other.layout_view()
        &&& self.bounds_view() == other.bounds_view()
        &&& self.selecting() == other.selecting()
    }

    /// An empty editor: no content, caret at 0, nothing composing.
    pub fn new() -> (r: NoteEditor)
        ensures
            r.wf(),
            r@ == (EditorModel {
                text: Seq::<u8>::empty(),
                sel_start: 0,
                sel_end: 0,
                reversed: false,
                marked: Option::None,
            }),
            !r.selecting(),
            r.layout_view() is None,
            r.bounds_view() is None,
    {
        let e = NoteEditor {
            content: Vec::new(),
            selected_start: 0,
            selected_end: 0,
            selection_reversed: false,
            marked_range: Option::None,
            last_layout: Option::None,
            last_bounds: Option::None,
            is_selecting: false,
        };
        proof {
            assert(e@.text =~= Seq::<u8>::empty());
        }
        e
    }

    /// Load a note's content wholesale: the selection collapses to the end
    /// of the content and the composing range is cleared.
    pub fn set_content(&mut self, content: Vec<u8>)
        requires
            is_utf8(content@),
        ensures
            final(self).wf(),
            final(self)@ == (EditorModel {
                text: content@,
                sel_start: content@.len() as int,
                sel_end: content@.len() as int,
                reversed: false,
                marked: Option::None,
            }),
            final(self).cache_unchanged(old(self)),
    {
        proof {
            crate::utf8::lemma_len_is_boundary(content@);
        }
        let n = content.len();
        self.content = content;
        self.selected_start = n;
        self.selected_end = n;
        self.selection_reversed = false;
        self.marked_range = Option::None;
    }

    /// The buffer content.
    pub fn content(&self) -> (r: &Vec<u8>)
        ensures
            r@ == self@.text,
    {
        &self.content
    }

    /// The normalized selection in native byte offsets.
    pub fn selected_range(&self) -> (r: TextRange)
        ensures
            r.start as int == self@.sel_start,
            r.end as int == self@.sel_end,
    {
        TextRange { start: self.selected_start, end: self.selected_end }
    }

    /// Whether the caret is at the selection's start rather than its end.
    pub fn is_reversed(&self) -> (r: bool)
        ensures
            r == self@.reversed,
    {
        self.selection_reversed
    }

    /// The caret offset: `start` when reversed, else `end`.
    pub fn cursor_offset(&self) -> (r: usize)
        ensures
            r as int == caret_m(self@),
    {
        if self.selection_reversed {
            self.selected_start
        } else {
            self.selected_end
        }
    }

    /// Collapse the selection to a caret at `offset`.
    pub fn move_to(&mut self, offset: usize)
        requires
            old(self).wf(),
            offset <= old(self)@.text.len(),
            is_boundary(old(self)@.text, offset as int),
        ensures
            final(self).wf(),
            final(self)@ == move_to_m(old(self)@, offset as int),
            final(self).cache_unchanged(old(self)),
    {
        self.selected_start = offset;
        self.selected_end = offset;
    }

    /// Extend or shrink the selection's non-anchor bound to `offset`,
    /// flipping direction when the bound crosses the anchor.
    pub fn select_to(&mut self, offset: usize)
        requires
            old(self).wf(),
            offset <= old(self)@.text.len(),
            is_boundary(old(self)@.text, offset as int),
        ensures
            final(self).wf(),
            final(self)@ == select_to_m(old(self)@, offset as int),
            final(self)@.sel_start <= final(self)@.sel_end,
            final(self).cache_unchanged(old(self)),
    {
        if self.selection_reversed {
            self.selected_start = offset;
        } else {
            self.selected_end = offset;
        }
        if self.selected_end < self.selected_start {
            self.selection_reversed = !self.selection_reversed;
            let s = self.selected_end;
            let e = self.selected_start;
            self.selected_start = s;
            self.selected_end = e;
        }
    }

    /// Select the whole content: anchor at 0, caret at the end.
    pub fn select_all(&mut self)
        requires
            old(self).wf(),
        ensures
            final(self).wf(),
            final(self)@ == select_to_m(
                move_to_m(old(self)@, 0),
                old(self)@.text.len() as int,
            ),
            final(self)@.sel_start == 0 && final(self)@.sel_end == final(self)@.text.len(),
            final(self).cache_unchanged(old(self)),
    {
        proof {
            crate::utf8::lemma_len_is_boundary(self.content@);
        }
        self.move_to(0);
        let n = self.content.len();
        self.select_to(n);
    }
}

/// Spec view of an optional offset range.
pub open spec fn range_opt_view(r: Option<TextRange>) -> Option<(int, int)> {
    match r {
        Option::Some(x) => Option::Some((x.start as int, x.end as int)),
        Option::None => Option::None,
    }
}

/// Copy of `content[start..end]`.
fn copy_range(content: &Vec<u8>, start: usize, end: usize) -> (r: Vec<u8>)
    requires
        start <= end <= content@.len(),
    ensures
        r@ == content@.subrange(start as int, end as int),
{
    let mut out: Vec<u8> = Vec::new();
    let mut i: usize = start;
    while i < end
        invariant
            start <= i <= end <= content@.len(),
            out@ =~= content@.subrange(start as int, i as int),
        decreases end - i,
    {
        out.push(content[i]);
        i = i + 1;
    }
    out
}

/// The result of deleting `content[start..end]` and inserting `t` at its
/// place.
fn splice_bytes(content: &Vec<u8>, start: usize, end: usize, t: &Vec<u8>) -> (r: Vec<u8>)
    requires
        start <= end <= content@.len(),
    ensures
        r@ == splice(content@, start as int, end as int, t@),
        r@.len() == start + t@.len() + (content@.len() - end),
{
    let mut out: Vec<u8> = Vec::new();
    let mut i: usize = 0;
    while i < start
        invariant
            i <= start <= end <= content@.len(),
            out@ =~= content@.subrange(0, i as int),
        decreases start - i,
    {
        out.push(content[i]);
        i = i + 1;
    }
    let mut j: usize = 0;
    while j < t.len()
        invariant
            start <= end <= content@.len(),
            j <= t@.len(),
            out@ =~= content@.subrange(0, start as int) + t@.subrange(0, j as int),
        decreases t@.len() - j,
    {
        out.push(t[j]);
        j = j + 1;
    }
    let mut k: usize = end;
    while k < content.len()
        invariant
            start <= end <= k <= content@.len(),
            out@ =~= content@.subrange(0, start as int) + t@ + content@.subrange(
                end as int,
                k as int,
            ),
        decreases content@.len() - k,
    {
        out.push(content[k]);
        k = k + 1;
    }
    proof {
        assert(out@ =~= splice(content@, start as int, end as int, t@));
    }
    out
}

impl NoteEditor {
    /// Native byte offset for a UTF-16 offset, clamped to the nearest
    /// following boundary.
    pub fn offset_from_utf16(&self, offset16: usize) -> (r: usize)
        requires
            self.wf(),
        ensures
            r as int == utf16_to_native(self@.text, offset16 as int),
            r <= self@.text.len(),
            is_boundary(self@.text, r as int),
    {
        crate::encoding::offset_from_utf16(&self.content, offset16)
    }

    /// UTF-16 code-unit offset for a native byte offset.
    pub fn offset_to_utf16(&self, offset: usize) -> (r: usize)
        requires
            self.wf(),
        ensures
            r as int == native_to_utf16(self@.text, offset as int),
            r <= self@.text.len(),
    {
        crate::encoding::offset_to_utf16(&self.content, offset)
    }

    /// Convert a UTF-16 range to native byte offsets, bound by bound.
    pub fn range_from_utf16(&self, range16: TextRange) -> (r: TextRange)
        requires
            self.wf(),
        ensures
            r.start as int == utf16_to_native(self@.text, range16.start as int),
            r.end as int == utf16_to_native(self@.text, range16.end as int),
            r.start <= self@.text.len() && r.end <= self@.text.len(),
            is_boundary(self@.text, r.start as int),
            is_boundary(self@.text, r.end as int),
    {
        TextRange {
            start: self.offset_from_utf16(range16.start),
            end: self.offset_from_utf16(range16.end),
        }
    }

    /// Convert a native byte range to UTF-16 offsets, bound by bound.
    pub fn range_to_utf16(&self, range: TextRange) -> (r: TextRange)
        requires
            self.wf(),
        ensures
            r.start as int == native_to_utf16(self@.text, range.start as int),
            r.end as int == native_to_utf16(self@.text, range.end as int),
    {
        TextRange {
            start: self.offset_to_utf16(range.start),
            end: self.offset_to_utf16(range.end),
        }
    }

    /// Resolve the range an input-method edit applies to and return it in
    /// native offsets, with both bounds on boundaries and in order.
    fn resolve_range(&self, range16: Option<TextRange>) -> (r: (usize, usize))
        requires
            self.wf(),
            (range16 matches Option::Some(g) ==> g.start <= g.end),
        ensures
            (r.0 as int, r.1 as int) == resolve_range_m(self@, range_opt_view(range16)),
            r.0 <= r.1 <= self@.text.len(),
            is_boundary(self@.text, r.0 as int),
            is_boundary(self@.text, r.1 as int),
    {
        match range16 {
            Option::Some(g) => {
                proof {
                    crate::encoding::lemma_utf16_to_native_monotone(
                        self@.text,
                        g.start as int,
                        g.end as int,
                    );
                }
                let s = self.offset_from_utf16(g.start);
                let e = self.offset_from_utf16(g.end);
                (s, e)
            },
            Option::None => match self.marked_range {
                Option::Some(mk) => (mk.start, mk.end),
                Option::None => (self.selected_start, self.selected_end),
            },
        }
    }

    /// Apply an input-method (or keyboard) text replacement: delete the
    /// resolved range, insert `new_text`, collapse the selection to just
    /// after it, and clear the composing range.
    pub fn replace_text_in_range(&mut self, range16: Option<TextRange>, new_text: &Vec<u8>)
        requires
            old(self).wf(),
            is_utf8(new_text@),
            (range16 matches Option::Some(g) ==> g.start <= g.end),
        ensures
            final(self).wf(),
            final(self)@ == replace_m(old(self)@, range_opt_view(range16), new_text@),
            final(self).cache_unchanged(old(self)),
    {
        let (start, end) = self.resolve_range(range16);
        proof {
            crate::utf8::lemma_splice_wf(
                self@.text,
                start as int,
                end as int,
                new_text@,
            );
        }
        let new_content = splice_bytes(&self.content, start, end, new_text);
        let total = new_content.len();
        proof {
            assert(start + new_text@.len() <= total);
        }
        let caret = start + new_text.len();
        self.content = new_content;
        self.selected_start = caret;
        self.selected_end = caret;
        self.marked_range = Option::None;
        proof {
            assert(self@ =~= replace_m(old(self)@, range_opt_view(range16), new_text@));
        }
    }

    /// Apply a composing replacement: as `replace_text_in_range`, but the
    /// inserted span becomes the composing range and the selection goes to
    /// the caller's sub-range of the inserted text (UTF-16 units relative
    /// to it) or to its end.
    pub fn replace_and_mark_text_in_range(
        &mut self,
        range16: Option<TextRange>,
        new_text: &Vec<u8>,
        new_selected_range16: Option<TextRange>,
    )
        requires
            old(self).wf(),
            is_utf8(new_text@),
            (range16 matches Option::Some(g) ==> g.start <= g.end),
            (new_selected_range16 matches Option::Some(g) ==> g.start <= g.end),
        ensures
            final(self).wf(),
            final(self)@ == replace_and_mark_m(
                old(self)@,
                range_opt_view(range16),
                new_text@,
                range_opt_view(new_selected_range16),
            ),
            final(self).cache_unchanged(old(self)),
    {
        let (start, end) = self.resolve_range(range16);
        proof {
            crate::utf8::lemma_splice_wf(
                self@.text,
                start as int,
                end as int,
                new_text@,
            );
        }
        let new_content = splice_bytes(&self.content, start, end, new_text);
        let ghost text2 = new_content@;
        let ghost old_text = self.content@;
        let total = new_content.len();
        proof {
            assert(start + new_text@.len() <= total);
        }
        let mark_end = start + new_text.len();
        let (sel_s, sel_e): (usize, usize) = match new_selected_range16 {
            Option::Some(inner) => {
                proof {
                    crate::encoding::lemma_utf16_to_native_monotone(
                        new_text@,
                        inner.start as int,
                        inner.end as int,
                    );
                }
                let a = crate::encoding::offset_from_utf16(new_text, inner.start);
                let b = crate::encoding::offset_from_utf16(new_text, inner.end);
                proof {
                    assert(text2.skip(start as int) =~= new_text@ + old_text.skip(end as int));
                    crate::utf8::lemma_utf8_take_skip(old_text, end as int);
                    crate::utf8::lemma_boundary_prefix(
                        new_text@,
                        old_text.skip(end as int),
                        a as int,
                    );
                    crate::utf8::lemma_boundary_prefix(
                        new_text@,
                        old_text.skip(end as int),
                        b as int,
                    );
                    crate::encoding::lemma_boundary_shift(text2, start as int, a as int);
                    crate::encoding::lemma_boundary_shift(text2, start as int, b as int);
                }
                (start + a, start + b)
            },
            Option::None => (mark_end, mark_end),
        };
        self.content = new_content;
        self.selected_start = sel_s;
        self.selected_end = sel_e;
        self.marked_range = Option::Some(TextRange { start, end: mark_end });
        proof {
            assert(self@ =~= replace_and_mark_m(
                old(self)@,
                range_opt_view(range16),
                new_text@,
                range_opt_view(new_selected_range16),
            ));
        }
    }

    /// Text of a UTF-16 range, with the range actually used (clamped to
    /// boundaries) reported back in UTF-16 units.
    pub fn text_for_range(&self, range16: TextRange) -> (r: (Vec<u8>, TextRange))
        requires
            self.wf(),
            range16.start <= range16.end,
        ensures
            r.0@ == self@.text.subrange(
                utf16_to_native(self@.text, range16.start as int),
                utf16_to_native(self@.text, range16.end as int),
            ),
            r.1.start as int == native_to_utf16(
                self@.text,
                utf16_to_native(self@.text, range16.start as int),
            ),
            r.1.end as int == native_to_utf16(
                self@.text,
                utf16_to_native(self@.text, range16.end as int),
            ),
    {
        proof {
            crate::encoding::lemma_utf16_to_native_monotone(
                self@.text,
                range16.start as int,
                range16.end as int,
            );
        }
        let s = self.offset_from_utf16(range16.start);
        let e = self.offset_from_utf16(range16.end);
        let text = copy_range(&self.content, s, e);
        let actual = self.range_to_utf16(TextRange { start: s, end: e });
        (text, actual)
    }

    /// The selection in UTF-16 units, with its direction.
    pub fn selected_text_range(&self) -> (r: (TextRange, bool))
        requires
            self.wf(),
        ensures
            r.0.start as int == native_to_utf16(self@.text, self@.sel_start),
            r.0.end as int == native_to_utf16(self@.text, self@.sel_end),
            r.1 == self@.reversed,
    {
        let range = self.range_to_utf16(TextRange {
            start: self.selected_start,
            end: self.selected_end,
        });
        (range, self.selection_reversed)
    }

    /// The composing range in UTF-16 units, if text is being composed.
    pub fn marked_text_range(&self) -> (r: Option<TextRange>)
        requires
            self.wf(),
        ensures
            match self@.marked {
                Option::Some(mk) => {
                    &&& r matches Option::Some(t)
                    &&& t.start as int == native_to_utf16(self@.text, mk.0)
                    &&& t.end as int == native_to_utf16(self@.text, mk.1)
                },
                Option::None => r is None,
            },
    {
        match self.marked_range {
            Option::Some(mk) => Option::Some(
                self.range_to_utf16(TextRange { start: mk.start, end: mk.end }),
            ),
            Option::None => Option::None,
        }
    }

    /// End composition without further change: the composing range is
    /// dropped, the text and selection stay.
    pub fn unmark_text(&mut self)
        requires
            old(self).wf(),
        ensures
            final(self).wf(),
            final(self)@ == (EditorModel { marked: Option::None, ..old(self)@ }),
            final(self).cache_unchanged(old(self)),
    {
        self.marked_range = Option::None;
    }
}

/// Collapse to the previous grapheme boundary (moving left), or to the
/// selection's start when one is active.
pub open spec fn on_left_m(m: EditorModel) -> EditorModel {
    if m.sel_start == m.sel_end {
        move_to_m(m, crate::graphemes::prev_grapheme_boundary(m.text, caret_m(m)))
    } else {
        move_to_m(m, m.sel_start)
    }
}

/// Collapse to the next grapheme boundary (moving right), or to the
/// selection's end when one is active.
pub open spec fn on_right_m(m: EditorModel) -> EditorModel {
    if m.sel_start == m.sel_end {
        move_to_m(m, crate::graphemes::next_grapheme_boundary(m.text, m.sel_end))
    } else {
        move_to_m(m, m.sel_end)
    }
}

/// Backspace: an empty selection first extends one grapheme leftward, then
/// the selection (or the composing range, if any) is deleted.
pub open spec fn on_backspace_m(m: EditorModel) -> EditorModel {
    let m1 = if m.sel_start == m.sel_end {
        select_to_m(m, crate::graphemes::prev_grapheme_boundary(m.text, caret_m(m)))
    } else {
        m
    };
    replace_m(m1, Option::None, Seq::<u8>::empty())
}

/// Forward delete: an empty selection first extends one grapheme
/// rightward, then the selection (or the composing range, if any) is
/// deleted.
pub open spec fn on_delete_m(m: EditorModel) -> EditorModel {
    let m1 = if m.sel_start == m.sel_end {
        select_to_m(m, crate::graphemes::next_grapheme_boundary(m.text, caret_m(m)))
    } else {
        m
    };
    replace_m(m1, Option::None, Seq::<u8>::empty())
}

/// Caret position after a vertical move to `target_line`: the caret's byte
/// column, clamped to the target line's length and snapped to the nearest
/// scalar-value boundary at or below it.
pub open spec fn vertical_target_m(text: Seq<u8>, cursor: int, target_line: int) -> int {
    let col = cursor - crate::lines::line_start(text, crate::lines::line_of(text, cursor));
    let tstart = crate::lines::line_start(text, target_line);
    let tlen = crate::lines::line_len(text, target_line);
    crate::utf8::snap_down(text, tstart + (if col <= tlen { col } else { tlen }))
}

/// Vertical move up, preserving the caret's column; a no-op on the first
/// line.
pub open spec fn move_up_m(m: EditorModel) -> EditorModel {
    let cur = caret_m(m);
    let line = crate::lines::line_of(m.text, cur);
    if line == 0 {
        m
    } else {
        move_to_m(m, vertical_target_m(m.text, cur, line - 1))
    }
}

/// Vertical move down, preserving the caret's column; a no-op on the last
/// line.
pub open spec fn move_down_m(m: EditorModel) -> EditorModel {
    let cur = caret_m(m);
    let line = crate::lines::line_of(m.text, cur);
    if line >= crate::lines::line_count(m.text) - 1 {
        m
    } else {
        move_to_m(m, vertical_target_m(m.text, cur, line + 1))
    }
}

impl NoteEditor {
    /// Largest grapheme boundary strictly before `offset`, or 0.
    pub fn previous_boundary(&self, offset: usize) -> (r: usize)
        requires
            self.wf(),
        ensures
            r as int == crate::graphemes::prev_grapheme_boundary(self@.text, offset as int),
            is_boundary(self@.text, r as int),
            r <= offset,
            r <= self@.text.len(),
            offset > 0 ==> r < offset,
            crate::graphemes::grapheme_starts_wf(self@.text),
    {
        crate::graphemes::previous_boundary(&self.content, offset)
    }

    /// Smallest grapheme boundary strictly after `offset`, or the end of
    /// the content.
    pub fn next_boundary(&self, offset: usize) -> (r: usize)
        requires
            self.wf(),
            offset <= self@.text.len(),
        ensures
            r as int == crate::graphemes::next_grapheme_boundary(self@.text, offset as int),
            is_boundary(self@.text, r as int),
            offset <= r <= self@.text.len(),
            offset < self@.text.len() ==> offset < r,
            crate::graphemes::grapheme_starts_wf(self@.text),
    {
        crate::graphemes::next_boundary(&self.content, offset)
    }

    /// Move left: collapse to the selection's start, or step one grapheme
    /// back from the caret.
    pub fn on_left(&mut self)
        requires
            old(self).wf(),
        ensures
            final(self).wf(),
            final(self)@ == on_left_m(old(self)@),
            final(self).cache_unchanged(old(self)),
    {
        if self.selected_start == self.selected_end {
            let c = self.cursor_offset();
            let p = self.previous_boundary(c);
            self.move_to(p);
        } else {
            let s = self.selected_start;
            self.move_to(s);
        }
    }

    /// Move right: collapse to the selection's end, or step one grapheme
    /// forward from it.
    pub fn on_right(&mut self)
        requires
            old(self).wf(),
        ensures
            final(self).wf(),
            final(self)@ == on_right_m(old(self)@),
            final(self).cache_unchanged(old(self)),
    {
        if self.selected_start == self.selected_end {
            let e = self.selected_end;
            let n = self.next_boundary(e);
            self.move_to(n);
        } else {
            let e = self.selected_end;
            self.move_to(e);
        }
    }

    /// Backspace: delete the selection, or one grapheme before the caret.
    pub fn on_backspace(&mut self)
        requires
            old(self).wf(),
        ensures
            final(self).wf(),
            final(self)@ == on_backspace_m(old(self)@),
            final(self).cache_unchanged(old(self)),
    {
        if self.selected_start == self.selected_end {
            let c = self.cursor_offset();
            let p = self.previous_boundary(c);
            self.select_to(p);
        }
        let empty_text: Vec<u8> = Vec::new();
        proof {
            assert(empty_text@ =~= Seq::<u8>::empty());
        }
        self.replace_text_in_range(Option::None, &empty_text);
    }

    /// Forward delete: delete the selection, or one grapheme after the
    /// caret.
    pub fn on_delete(&mut self)
        requires
            old(self).wf(),
        ensures
            final(self).wf(),
            final(self)@ == on_delete_m(old(self)@),
            final(self).cache_unchanged(old(self)),
    {
        if self.selected_start == self.selected_end {
            let c = self.cursor_offset();
            let n = self.next_boundary(c);
            self.select_to(n);
        }
        let empty_text: Vec<u8> = Vec::new();
        proof {
            assert(empty_text@ =~= Seq::<u8>::empty());
        }
        self.replace_text_in_range(Option::None, &empty_text);
    }

    /// Index of the line containing `offset`.
    pub fn line_at_offset(&self, offset: usize) -> (r: usize)
        requires
            self.wf(),
            offset <= self@.text.len(),
        ensures
            r as int == crate::lines::line_of(self@.text, offset as int),
    {
        crate::lines::line_at_offset(&self.content, offset)
    }

    /// First offset of line `line_number`, clamped to the content length.
    pub fn offset_at_line_start(&self, line_number: usize) -> (r: usize)
        requires
            self.wf(),
        ensures
            r as int == crate::lines::line_start(self@.text, line_number as int),
            r <= self@.text.len(),
    {
        crate::lines::offset_at_line_start(&self.content, line_number)
    }

    /// Offset just past the last byte of line `line_number`, exclusive of
    /// the separator, clamped to the content length.
    pub fn offset_at_line_end(&self, line_number: usize) -> (r: usize)
        requires
            self.wf(),
        ensures
            r as int == crate::lines::line_end(self@.text, line_number as int),
            r <= self@.text.len(),
    {
        crate::lines::offset_at_line_end(&self.content, line_number)
    }

    /// Length in bytes of line `line_number`; 0 past the end.
    pub fn line_length(&self, line_number: usize) -> (r: usize)
        requires
            self.wf(),
        ensures
            r as int == crate::lines::line_len(self@.text, line_number as int),
    {
        crate::lines::line_length(&self.content, line_number)
    }

    /// Move the caret to the line above, keeping its column (clamped to
    /// that line's length); a no-op on the first line.
    pub fn move_up(&mut self)
        requires
            old(self).wf(),
        ensures
            final(self).wf(),
            final(self)@ == move_up_m(old(self)@),
            final(self).cache_unchanged(old(self)),
            crate::lines::line_of(old(self)@.text, caret_m(old(self)@)) == 0 ==> final(self)@
                == old(self)@,
    {
        let cursor = self.cursor_offset();
        let cur_line = crate::lines::line_at_offset(&self.content, cursor);
        if cur_line > 0 {
            proof {
                crate::lines::lemma_line_of_between(self@.text, cursor as int);
            }
            let cur_start = crate::lines::offset_at_line_start(&self.content, cur_line);
            let x_offset = cursor - cur_start;
            let prev_line = cur_line - 1;
            proof {
                crate::lines::lemma_line_start_le_end(self@.text, prev_line as int);
                crate::lines::lemma_line_end_char(self@.text, prev_line as int);
            }
            let prev_start = crate::lines::offset_at_line_start(&self.content, prev_line);
            let prev_len = crate::lines::line_length(&self.content, prev_line);
            let col = if x_offset <= prev_len {
                x_offset
            } else {
                prev_len
            };
            let content_len = self.content.len();
            proof {
                assert(prev_start + col <= content_len);
            }
            let raw = prev_start + col;
            let target = crate::utf8::snap_to_boundary(&self.content, raw);
            self.move_to(target);
        }
    }

    /// Move the caret to the line below, keeping its column (clamped to
    /// that line's length); a no-op on the last line.
    pub fn move_down(&mut self)
        requires
            old(self).wf(),
        ensures
            final(self).wf(),
            final(self)@ == move_down_m(old(self)@),
            final(self).cache_unchanged(old(self)),
            crate::lines::line_of(old(self)@.text, caret_m(old(self)@)) >= crate::lines::line_count(
                old(self)@.text,
            ) - 1 ==> final(self)@ == old(self)@,
    {
        let cursor = self.cursor_offset();
        let cur_line = crate::lines::line_at_offset(&self.content, cursor);
        let cur_end = crate::lines::offset_at_line_end(&self.content, cur_line);
        proof {
            crate::lines::lemma_line_of_in_range(self@.text, cursor as int);
            crate::lines::lemma_line_end_last(self@.text, cur_line as int);
            crate::lines::lemma_line_count_le(self@.text);
        }
        if cur_end < self.content.len() {
            proof {
                crate::lines::lemma_line_of_between(self@.text, cursor as int);
            }
            let cur_start = crate::lines::offset_at_line_start(&self.content, cur_line);
            let x_offset = cursor - cur_start;
            let next_line = cur_line + 1;
            proof {
                crate::lines::lemma_line_start_le_end(self@.text, next_line as int);
                crate::lines::lemma_line_end_char(self@.text, next_line as int);
            }
            let next_start = crate::lines::offset_at_line_start(&self.content, next_line);
            let next_len = crate::lines::line_length(&self.content, next_line);
            let col = if x_offset <= next_len {
                x_offset
            } else {
                next_len
            };
            let content_len = self.content.len();
            proof {
                assert(next_start + col <= content_len);
            }
            let raw = next_start + col;
            let target = crate::utf8::snap_to_boundary(&self.content, raw);
            self.move_to(target);
        }
    }
}

/// The symbolic keys the editor reacts to; anything else maps to `Other`.
#[derive(Clone, Copy, PartialEq, Eq, Structural, Debug)]
pub enum Key {
    Enter,
    Backspace,
    Delete,
    ArrowLeft,
    ArrowRight,
    ArrowUp,
    ArrowDown,
    Home,
    End,
    LetterA,
    LetterC,
    LetterX,
    LetterV,
    Other,
}

/// A key event: the symbolic key, the modifier flags, and whether the
/// event carries directly typed character input — which this layer
/// ignores, since typed text arrives through the replace-text entry
/// points, never through raw key events.
#[derive(Clone, Copy, PartialEq, Eq, Structural, Debug)]
pub struct KeyStroke {
    pub key: Key,
    pub shift: bool,
    pub platform: bool,
    pub has_key_char: bool,
}

/// What the surrounding shell must do with the clipboard after a key
/// event: nothing, write the given text to it, or read it and hand the
/// text back through `replace_text_in_range`.
#[derive(Debug, PartialEq, Eq)]
pub enum ClipboardEffect {
    Nothing,
    Write(Vec<u8>),
    ReadAndInsert,
}

/// Shift+vertical: the selection extends from the pre-keystroke caret
/// (the anchor, re-pinned on every key press) through the new vertical
/// caret position, which becomes the caret.
pub open spec fn shift_vertical_m(m: EditorModel, up: bool) -> EditorModel {
    let cursor = caret_m(m);
    let m1 = if up {
        move_up_m(m)
    } else {
        move_down_m(m)
    };
    let m2 = EditorModel { sel_start: cursor, sel_end: cursor, ..m1 };
    select_to_m(m2, caret_m(m1))
}

/// The state transition a key event causes, dispatched by symbolic key
/// and modifier flags.
pub open spec fn key_down_m(m: EditorModel, k: KeyStroke) -> EditorModel {
    if k.key == Key::Enter {
        replace_m(m, Option::None, seq![0x0Au8])
    } else if k.has_key_char {
        m
    } else if k.key == Key::Backspace {
        on_backspace_m(m)
    } else if k.key == Key::Delete {
        on_delete_m(m)
    } else if k.key == Key::ArrowLeft {
        if k.shift {
            select_to_m(m, crate::graphemes::prev_grapheme_boundary(m.text, caret_m(m)))
        } else {
            on_left_m(m)
        }
    } else if k.key == Key::ArrowRight {
        if k.shift {
            select_to_m(m, crate::graphemes::next_grapheme_boundary(m.text, caret_m(m)))
        } else {
            on_right_m(m)
        }
    } else if k.key == Key::ArrowUp {
        if k.shift {
            shift_vertical_m(m, true)
        } else {
            move_up_m(m)
        }
    } else if k.key == Key::ArrowDown {
        if k.shift {
            shift_vertical_m(m, false)
        } else {
            move_down_m(m)
        }
    } else if k.key == Key::Home {
        let ls = crate::lines::line_start(m.text, crate::lines::line_of(m.text, caret_m(m)));
        if k.shift {
            select_to_m(m, ls)
        } else {
            move_to_m(m, ls)
        }
    } else if k.key == Key::End {
        let le = crate::lines::line_end(m.text, crate::lines::line_of(m.text, caret_m(m)));
        if k.shift {
            select_to_m(m, le)
        } else {
            move_to_m(m, le)
        }
    } else if k.key == Key::LetterA && k.platform {
        select_to_m(move_to_m(m, 0), m.text.len() as int)
    } else if k.key == Key::LetterX && k.platform {
        if m.sel_start != m.sel_end {
            replace_m(m, Option::None, Seq::<u8>::empty())
        } else {
            m
        }
    } else {
        m
    }
}

/// The text offset a mouse point hits: the target line comes from the
/// vertical offset divided by the line height, the column from the shaped
/// line's closest boundary to the horizontal offset, clamped to the line;
/// an empty buffer or a missing layout cache degrades to offset 0.
pub open spec fn hit_test_m(
    text: Seq<u8>,
    layout: Option<Seq<int>>,
    bounds: Option<BoundsPx>,
    p: PointPx,
) -> int {
    if text.len() == 0 {
        0
    } else {
        match (bounds, layout) {
            (Option::Some(b), Option::Some(ps)) => {
                let rel_y = p.y - b.top;
                let li = if rel_y < 0 {
                    0
                } else {
                    rel_y / (crate::layout::LINE_HEIGHT_PX as int)
                };
                if li >= crate::lines::line_count(text) {
                    text.len() as int
                } else {
                    let off = crate::lines::line_start(text, li);
                    let ll = crate::lines::line_len(text, li);
                    if (p.x as int) < b.left {
                        off
                    } else if ll == 0 {
                        off
                    } else {
                        let c = crate::layout::closest_index(ps, p.x - b.left);
                        off + (if c <= ll {
                            c
                        } else {
                            ll
                        })
                    }
                }
            },
            _ => 0,
        }
    }
}

/// Where a mouse event puts the caret: the hit-tested offset, snapped to
/// the nearest scalar-value boundary at or below it.
pub open spec fn mouse_target_m(
    m: EditorModel,
    layout: Option<Seq<int>>,
    bounds: Option<BoundsPx>,
    p: PointPx,
) -> int {
    crate::utf8::snap_down(m.text, hit_test_m(m.text, layout, bounds, p))
}

/// The UTF-16 offset under a mouse point, when the point lies inside the
/// cached viewport and within the shaped line's extent.
pub open spec fn char_index_for_point_m(
    text: Seq<u8>,
    layout: Option<Seq<int>>,
    bounds: Option<BoundsPx>,
    p: PointPx,
) -> Option<int> {
    match bounds {
        Option::Some(b) => {
            if !(b.left <= p.x < b.right && b.top <= p.y < b.bottom) {
                Option::None
            } else {
                match layout {
                    Option::Some(ps) => {
                        match crate::layout::index_for_x_spec(ps, p.x - b.left) {
                            Option::Some(i) => Option::Some(native_to_utf16(text, i)),
                            Option::None => Option::None,
                        }
                    },
                    Option::None => Option::None,
                }
            }
        },
        Option::None => Option::None,
    }
}

impl NoteEditor {
    /// Record the shaping of the first line and the viewport bounds from
    /// the latest render pass; hit tests read this cache.
    pub fn set_layout(&mut self, layout: LineLayout, bounds: BoundsPx)
        requires
            old(self).wf(),
        ensures
            final(self).wf(),
            final(self)@ == old(self)@,
            final(self).layout_view() == Option::Some(layout@),
            final(self).bounds_view() == Option::Some(bounds),
            final(self).selecting() == old(self).selecting(),
    {
        self.last_layout = Option::Some(layout);
        self.last_bounds = Option::Some(bounds);
    }

    /// Map a mouse point to a text offset using the cached layout; an
    /// empty buffer or a missing cache gives offset 0, and everything else
    /// clamps rather than fails.
    pub fn index_for_mouse_position(&self, position: PointPx) -> (r: usize)
        requires
            self.wf(),
        ensures
            r as int == hit_test_m(self@.text, self.layout_view(), self.bounds_view(), position),
            r <= self@.text.len(),
            self@.text.len() == 0 ==> r == 0,
    {
        if self.content.len() == 0 {
            return 0;
        }
        match (&self.last_bounds, &self.last_layout) {
            (Option::Some(b), Option::Some(lay)) => {
                let rel_y: i64 = position.y as i64 - b.top as i64;
                let li_i64: i64 = if rel_y < 0 {
                    0
                } else {
                    rel_y / (crate::layout::LINE_HEIGHT_PX as i64)
                };
                let content_len = self.content.len();
                proof {
                    crate::lines::lemma_line_count_ge_1(self@.text);
                    crate::lines::lemma_line_count_le(self@.text);
                }
                if li_i64 as u64 > content_len as u64 {
                    return content_len;
                }
                let li: usize = li_i64 as usize;
                if li > 0 {
                    let e = crate::lines::offset_at_line_end(&self.content, li - 1);
                    proof {
                        crate::lines::lemma_line_end_last(self@.text, li as int - 1);
                    }
                    if e == content_len {
                        return content_len;
                    }
                }
                let off = crate::lines::offset_at_line_start(&self.content, li);
                if position.x < b.left {
                    return off;
                }
                let ll = crate::lines::line_length(&self.content, li);
                if ll == 0 {
                    return off;
                }
                let x_within: i64 = position.x as i64 - b.left as i64;
                let c = lay.closest_index_for_x(x_within);
                let c2 = if c <= ll {
                    c
                } else {
                    ll
                };
                proof {
                    crate::lines::lemma_line_start_le_end(self@.text, li as int);
                    crate::lines::lemma_line_end_char(self@.text, li as int);
                }
                off + c2
            },
            _ => 0,
        }
    }

    /// Mouse button pressed: a drag begins; with shift the selection
    /// extends to the hit offset, without it the caret collapses there.
    pub fn on_mouse_down(&mut self, position: PointPx, shift: bool)
        requires
            old(self).wf(),
        ensures
            final(self).wf(),
            final(self).selecting(),
            final(self).layout_view() == old(self).layout_view(),
            final(self).bounds_view() == old(self).bounds_view(),
            shift ==> final(self)@ == select_to_m(
                old(self)@,
                mouse_target_m(old(self)@, old(self).layout_view(), old(self).bounds_view(), position),
            ),
            !shift ==> final(self)@ == move_to_m(
                old(self)@,
                mouse_target_m(old(self)@, old(self).layout_view(), old(self).bounds_view(), position),
            ),
    {
        self.is_selecting = true;
        let hit = self.index_for_mouse_position(position);
        let target = crate::utf8::snap_to_boundary(&self.content, hit);
        if shift {
            self.select_to(target);
        } else {
            self.move_to(target);
        }
    }

    /// Mouse button released: the drag ends; nothing else changes.
    pub fn on_mouse_up(&mut self)
        requires
            old(self).wf(),
        ensures
            final(self).wf(),
            final(self)@ == old(self)@,
            !final(self).selecting(),
            final(self).layout_view() == old(self).layout_view(),
            final(self).bounds_view() == old(self).bounds_view(),
    {
        self.is_selecting = false;
    }

    /// Mouse moved: while a drag is in progress the selection follows the
    /// hit offset; otherwise nothing changes.
    pub fn on_mouse_move(&mut self, position: PointPx)
        requires
            old(self).wf(),
        ensures
            final(self).wf(),
            final(self).cache_unchanged(old(self)),
            old(self).selecting() ==> final(self)@ == select_to_m(
                old(self)@,
                mouse_target_m(old(self)@, old(self).layout_view(), old(self).bounds_view(), position),
            ),
            !old(self).selecting() ==> final(self)@ == old(self)@,
    {
        if self.is_selecting {
            let hit = self.index_for_mouse_position(position);
            let target = crate::utf8::snap_to_boundary(&self.content, hit);
            self.select_to(target);
        }
    }

    /// Visual bounds of a UTF-16 range within the cached line layout, for
    /// selection highlights and input-method candidate windows; nothing
    /// when no layout is cached.
    pub fn bounds_for_range(&self, range16: TextRange, bounds: BoundsPx) -> (r: Option<
        VisualBounds,
    >)
        requires
            self.wf(),
        ensures
            r is Some <==> self.layout_view() is Some,
            match (r, self.layout_view()) {
                (Option::Some(vb), Option::Some(ps)) => {
                    &&& vb.left as int == bounds.left + crate::layout::x_for_index_spec(
                        ps,
                        utf16_to_native(self@.text, range16.start as int),
                    )
                    &&& vb.top as int == bounds.top as int
                    &&& vb.right as int == bounds.left + crate::layout::x_for_index_spec(
                        ps,
                        utf16_to_native(self@.text, range16.end as int),
                    )
                    &&& vb.bottom as int == bounds.bottom as int
                },
                _ => true,
            },
    {
        match &self.last_layout {
            Option::Some(lay) => {
                let s = crate::encoding::offset_from_utf16(&self.content, range16.start);
                let e = crate::encoding::offset_from_utf16(&self.content, range16.end);
                let x1 = lay.x_for_index(s);
                let x2 = lay.x_for_index(e);
                Option::Some(VisualBounds {
                    left: bounds.left as i64 + x1 as i64,
                    top: bounds.top as i64,
                    right: bounds.left as i64 + x2 as i64,
                    bottom: bounds.bottom as i64,
                })
            },
            Option::None => Option::None,
        }
    }

    /// UTF-16 offset of the character under a mouse point, when the point
    /// lies inside the cached viewport and line extent.
    pub fn character_index_for_point(&self, position: PointPx) -> (r: Option<usize>)
        requires
            self.wf(),
        ensures
            match char_index_for_point_m(
                self@.text,
                self.layout_view(),
                self.bounds_view(),
                position,
            ) {
                Option::Some(i) => {
                    &&& r matches Option::Some(x)
                    &&& x as int == i
                },
                Option::None => r is None,
            },
    {
        let b = match &self.last_bounds {
            Option::Some(b) => b,
            Option::None => {
                return Option::None;
            },
        };
        if !(b.left <= position.x && position.x < b.right && b.top <= position.y && position.y
            < b.bottom) {
            return Option::None;
        }
        let lay = match &self.last_layout {
            Option::Some(l) => l,
            Option::None => {
                return Option::None;
            },
        };
        let rel_x: i64 = position.x as i64 - b.left as i64;
        match lay.index_for_x(rel_x) {
            Option::Some(i) => Option::Some(crate::encoding::offset_to_utf16(&self.content, i)),
            Option::None => Option::None,
        }
    }

    /// Dispatch a key event: mutate the editor per the key and modifiers
    /// and say what the shell must do with the clipboard.  Events carrying
    /// typed character input are ignored here.
    pub fn on_key_down(&mut self, k: KeyStroke) -> (effect: ClipboardEffect)
        requires
            old(self).wf(),
        ensures
            final(self).wf(),
            final(self)@ == key_down_m(old(self)@, k),
            final(self).cache_unchanged(old(self)),
            (if k.key != Key::Enter && !k.has_key_char && k.key == Key::LetterC && k.platform
                && old(self)@.sel_start != old(self)@.sel_end {
                effect matches ClipboardEffect::Write(w) && w@ == old(self)@.text.subrange(
                    old(self)@.sel_start,
                    old(self)@.sel_end,
                )
            } else if k.key != Key::Enter && !k.has_key_char && k.key == Key::LetterX && k.platform
                && old(self)@.sel_start != old(self)@.sel_end {
                effect matches ClipboardEffect::Write(w) && w@ == old(self)@.text.subrange(
                    old(self)@.sel_start,
                    old(self)@.sel_end,
                )
            } else if k.key != Key::Enter && !k.has_key_char && k.key == Key::LetterV && k.platform {
                effect is ReadAndInsert
            } else {
                effect is Nothing
            }),
    {
        if k.key == Key::Enter {
            let nl: Vec<u8> = vec![0x0Au8];
            proof {
                let s = nl@;
                assert(s =~= seq![0x0Au8]);
                assert(crate::utf8::valid_first_char(s));
                assert(is_utf8(Seq::<u8>::empty()));
                assert(s.skip(1) =~= Seq::<u8>::empty());
                assert(is_utf8(s));
            }
            self.replace_text_in_range(Option::None, &nl);
            return ClipboardEffect::Nothing;
        }
        if k.has_key_char {
            return ClipboardEffect::Nothing;
        }
        match k.key {
            Key::Backspace => {
                self.on_backspace();
                ClipboardEffect::Nothing
            },
            Key::Delete => {
                self.on_delete();
                ClipboardEffect::Nothing
            },
            Key::ArrowLeft => {
                if k.shift {
                    let c = self.cursor_offset();
                    let p = self.previous_boundary(c);
                    self.select_to(p);
                } else {
                    self.on_left();
                }
                ClipboardEffect::Nothing
            },
            Key::ArrowRight => {
                if k.shift {
                    let c = self.cursor_offset();
                    let n = self.next_boundary(c);
                    self.select_to(n);
                } else {
                    self.on_right();
                }
                ClipboardEffect::Nothing
            },
            Key::ArrowUp => {
                if k.shift {
                    let cursor = self.cursor_offset();
                    self.move_up();
                    let nc = self.cursor_offset();
                    self.move_to(cursor);
                    self.select_to(nc);
                } else {
                    self.move_up();
                }
                ClipboardEffect::Nothing
            },
            Key::ArrowDown => {
                if k.shift {
                    let cursor = self.cursor_offset();
                    self.move_down();
                    let nc = self.cursor_offset();
                    self.move_to(cursor);
                    self.select_to(nc);
                } else {
                    self.move_down();
                }
                ClipboardEffect::Nothing
            },
            Key::Home => {
                let c = self.cursor_offset();
                let line = self.line_at_offset(c);
                let ls = self.offset_at_line_start(line);
                proof {
                    crate::lines::lemma_line_start_boundary(self@.text, line as int);
                }
                if k.shift {
                    self.select_to(ls);
                } else {
                    self.move_to(ls);
                }
                ClipboardEffect::Nothing
            },
            Key::End => {
                let c = self.cursor_offset();
                let line = self.line_at_offset(c);
                let le = self.offset_at_line_end(line);
                proof {
                    crate::lines::lemma_line_end_boundary(self@.text, line as int);
                }
                if k.shift {
                    self.select_to(le);
                } else {
                    self.move_to(le);
                }
                ClipboardEffect::Nothing
            },
            Key::LetterA => {
                if k.platform {
                    self.select_all();
                }
                ClipboardEffect::Nothing
            },
            Key::LetterC => {
                if k.platform && self.selected_start < self.selected_end {
                    let w = copy_range(&self.content, self.selected_start, self.selected_end);
                    ClipboardEffect::Write(w)
                } else {
                    ClipboardEffect::Nothing
                }
            },
            Key::LetterX => {
                if k.platform && self.selected_start < self.selected_end {
                    let w = copy_range(&self.content, self.selected_start, self.selected_end);
                    let empty_text: Vec<u8> = Vec::new();
                    proof {
                        assert(empty_text@ =~= Seq::<u8>::empty());
                    }
                    self.replace_text_in_range(Option::None, &empty_text);
                    ClipboardEffect::Write(w)
                } else {
                    ClipboardEffect::Nothing
                }
            },
            Key::LetterV => {
                if k.platform {
                    ClipboardEffect::ReadAndInsert
                } else {
                    ClipboardEffect::Nothing
                }
            },
            _ => ClipboardEffect::Nothing,
        }
    }
}

/// Selection normalization: whatever the prior state and target offset, a
/// `select_to` leaves `start <= end`.
pub proof fn lemma_select_to_normalized(m: EditorModel, o: int)
    ensures
        select_to_m(m, o).sel_start <= select_to_m(m, o).sel_end,
{
}

/// Insertion offset law: replacing `[s, e)` of a text with `t` makes the
/// range `[s, s + |t|)` of the result read back exactly `t`.
pub proof fn lemma_insertion_offset_law(text: Seq<u8>, s: int, e: int, t: Seq<u8>)
    requires
        0 <= s <= e <= text.len(),
    ensures
        splice(text, s, e, t).subrange(s, s + t.len()) == t,
{
    assert(splice(text, s, e, t).subrange(s, s + t.len() as int) =~= t);
}

/// Insertion offset law at the editor's interface: a committed replacement
/// of the selection makes the selected span read back the inserted text.
pub proof fn lemma_replace_reads_back(m: EditorModel, t: Seq<u8>)
    requires
        m_wf(m),
        m.marked is None,
    ensures
        replace_m(m, Option::None, t).text.subrange(m.sel_start, m.sel_start + t.len()) == t,
{
    lemma_insertion_offset_law(m.text, m.sel_start, m.sel_end, t);
}

} // verus!
