use tap_notes::editor::ClipboardEffect;
use tap_notes::editor::Key;
use tap_notes::editor::KeyStroke;
use tap_notes::editor::NoteEditor;
use tap_notes::editor::TextRange;
use tap_notes::layout::BoundsPx;
use tap_notes::layout::LineLayout;
use tap_notes::layout::PointPx;

fn editor_with(content: &str) -> NoteEditor {
    let mut ed = NoteEditor::new();
    ed.set_content(content.as_bytes().to_vec());
    ed
}

fn key(k: Key) -> KeyStroke {
    KeyStroke { key: k, shift: false, platform: false, has_key_char: false }
}

fn key_shift(k: Key) -> KeyStroke {
    KeyStroke { key: k, shift: true, platform: false, has_key_char: false }
}

fn key_platform(k: Key) -> KeyStroke {
    KeyStroke { key: k, shift: false, platform: true, has_key_char: false }
}

#[test]
fn new_editor_is_empty() {
    let ed = NoteEditor::new();
    assert_eq!(ed.content().len(), 0);
    assert_eq!(ed.selected_range(), TextRange { start: 0, end: 0 });
    assert!(!ed.is_reversed());
    assert_eq!(ed.marked_text_range(), None);
}

#[test]
fn set_content_selects_end() {
    let ed = editor_with("hello");
    assert_eq!(ed.content().as_slice(), b"hello");
    assert_eq!(ed.selected_range(), TextRange { start: 5, end: 5 });
    assert_eq!(ed.cursor_offset(), 5);
}

#[test]
fn scenario_move_down_keeps_column() {
    // Buffer "ab\ncd", caret after "a": moving down lands after "c".
    let mut ed = editor_with("ab\ncd");
    ed.move_to(1);
    ed.move_down();
    assert_eq!(ed.cursor_offset(), 4);
    assert_eq!(ed.selected_range(), TextRange { start: 4, end: 4 });
}

#[test]
fn scenario_backspace_at_end() {
    // Buffer "hello", empty selection at 5: backspace leaves "hell", caret 4.
    let mut ed = editor_with("hello");
    ed.on_backspace();
    assert_eq!(ed.content().as_slice(), b"hell");
    assert_eq!(ed.selected_range(), TextRange { start: 4, end: 4 });
}

#[test]
fn scenario_hit_test_empty_buffer() {
    // A mouse hit on an empty buffer gives offset 0 regardless of point.
    let ed = NoteEditor::new();
    assert_eq!(ed.index_for_mouse_position(PointPx { x: 500, y: 900 }), 0);
    assert_eq!(ed.index_for_mouse_position(PointPx { x: -40, y: -3 }), 0);

    let mut ed = NoteEditor::new();
    ed.set_layout(
        LineLayout { positions: vec![0] },
        BoundsPx { left: 0, top: 0, right: 100, bottom: 100 },
    );
    assert_eq!(ed.index_for_mouse_position(PointPx { x: 7, y: 7 }), 0);
}

#[test]
fn scenario_replace_and_mark_cat() {
    // On an empty buffer, composing "猫" with inner UTF-16 range 0..1 marks
    // the whole inserted span and selects its native bytes 0..3.
    let mut ed = NoteEditor::new();
    let cat = "猫".as_bytes().to_vec();
    ed.replace_and_mark_text_in_range(None, &cat, Some(TextRange { start: 0, end: 1 }));
    assert_eq!(ed.content().as_slice(), "猫".as_bytes());
    assert_eq!(ed.selected_range(), TextRange { start: 0, end: 3 });
    assert_eq!(ed.marked_text_range(), Some(TextRange { start: 0, end: 1 }));
}

#[test]
fn scenario_leftward_drag_reverses() {
    // Dragging from offset 3 back to 1 flips the direction and keeps the
    // stored range normalized.
    let mut ed = editor_with("abcdef");
    ed.move_to(3);
    ed.select_to(1);
    assert_eq!(ed.selected_range(), TextRange { start: 1, end: 3 });
    assert!(ed.is_reversed());
    assert_eq!(ed.cursor_offset(), 1);
}

#[test]
fn select_to_is_always_normalized() {
    let mut ed = editor_with("abcdef");
    ed.move_to(2);
    for &target in &[5usize, 0, 6, 2, 1, 4] {
        ed.select_to(target);
        let r = ed.selected_range();
        assert!(r.start <= r.end);
    }
}

#[test]
fn vertical_moves_are_noops_at_the_edges() {
    let mut ed = editor_with("ab\ncd");
    ed.move_to(1);
    ed.move_up();
    assert_eq!(ed.selected_range(), TextRange { start: 1, end: 1 });

    ed.move_to(4);
    ed.move_down();
    assert_eq!(ed.selected_range(), TextRange { start: 4, end: 4 });
}

#[test]
fn move_up_keeps_column() {
    let mut ed = editor_with("ab\ncd");
    ed.move_to(4);
    ed.move_up();
    assert_eq!(ed.cursor_offset(), 1);
}

#[test]
fn move_down_clamps_to_short_line() {
    let mut ed = editor_with("long line\nab");
    ed.move_to(9); // end of "long line"
    ed.move_down();
    assert_eq!(ed.cursor_offset(), 12); // end of "ab"
}

#[test]
fn move_up_snaps_inside_multibyte_column() {
    // Line 0 is "猫x" (bytes 0..4); a caret at column 2 of line 1 would land
    // inside the three-byte scalar, so it snaps back to its start.
    let mut ed = editor_with("猫x\nabc");
    ed.move_to(7);
    ed.move_up();
    assert_eq!(ed.cursor_offset(), 0);
}

#[test]
fn replace_range_reads_back_inserted_text() {
    let mut ed = editor_with("abcdef");
    ed.move_to(2);
    ed.select_to(4);
    let xy = b"XY".to_vec();
    ed.replace_text_in_range(None, &xy);
    assert_eq!(ed.content().as_slice(), b"abXYef");
    assert_eq!(ed.selected_range(), TextRange { start: 4, end: 4 });
    let (text, actual) = ed.text_for_range(TextRange { start: 2, end: 4 });
    assert_eq!(text.as_slice(), b"XY");
    assert_eq!(actual, TextRange { start: 2, end: 4 });
}

#[test]
fn replace_with_explicit_utf16_range() {
    let mut ed = editor_with("a猫b");
    // "a猫b" is 1 + 3 + 1 bytes but 3 UTF-16 units; replace unit 1 (the cat).
    let dog = "犬".as_bytes().to_vec();
    ed.replace_text_in_range(Some(TextRange { start: 1, end: 2 }), &dog);
    assert_eq!(ed.content().as_slice(), "a犬b".as_bytes());
    assert_eq!(ed.selected_range(), TextRange { start: 4, end: 4 });
}

#[test]
fn replace_prefers_marked_range_over_selection() {
    let mut ed = NoteEditor::new();
    let ab = b"ab".to_vec();
    ed.replace_and_mark_text_in_range(None, &ab, None);
    assert_eq!(ed.marked_text_range(), Some(TextRange { start: 0, end: 2 }));
    // Selection moved away from the marked range; commit still replaces it.
    ed.move_to(1);
    let xyz = b"xyz".to_vec();
    ed.replace_text_in_range(None, &xyz);
    assert_eq!(ed.content().as_slice(), b"xyz");
    assert_eq!(ed.marked_text_range(), None);
}

#[test]
fn unmark_keeps_text_and_selection() {
    let mut ed = NoteEditor::new();
    let ab = b"ab".to_vec();
    ed.replace_and_mark_text_in_range(None, &ab, None);
    let sel = ed.selected_range();
    ed.unmark_text();
    assert_eq!(ed.marked_text_range(), None);
    assert_eq!(ed.content().as_slice(), b"ab");
    assert_eq!(ed.selected_range(), sel);
}

#[test]
fn selected_text_range_reports_utf16_units() {
    let mut ed = editor_with("猫ab");
    ed.move_to(3);
    ed.select_to(5);
    let (range16, reversed) = ed.selected_text_range();
    assert_eq!(range16, TextRange { start: 1, end: 3 });
    assert!(!reversed);
}

#[test]
fn on_left_and_right_collapse_selection_to_near_edge() {
    let mut ed = editor_with("abcdef");
    ed.move_to(2);
    ed.select_to(4);
    ed.on_left();
    assert_eq!(ed.selected_range(), TextRange { start: 2, end: 2 });

    ed.move_to(2);
    ed.select_to(4);
    ed.on_right();
    assert_eq!(ed.selected_range(), TextRange { start: 4, end: 4 });
}

#[test]
fn on_left_steps_one_grapheme() {
    // "e" plus a combining acute accent is a single grapheme of 3 bytes.
    let mut ed = editor_with("ae\u{301}b");
    ed.move_to(4);
    ed.on_left();
    assert_eq!(ed.cursor_offset(), 1);
    ed.on_left();
    assert_eq!(ed.cursor_offset(), 0);
}

#[test]
fn on_delete_removes_grapheme_after_caret() {
    let mut ed = editor_with("ae\u{301}b");
    ed.move_to(1);
    ed.on_delete();
    assert_eq!(ed.content().as_slice(), b"ab");
    assert_eq!(ed.cursor_offset(), 1);
}

#[test]
fn key_enter_inserts_newline() {
    let mut ed = editor_with("ab");
    ed.move_to(1);
    let effect = ed.on_key_down(key(Key::Enter));
    assert_eq!(effect, ClipboardEffect::Nothing);
    assert_eq!(ed.content().as_slice(), b"a\nb");
    assert_eq!(ed.cursor_offset(), 2);
}

#[test]
fn key_with_typed_character_is_ignored() {
    let mut ed = editor_with("ab");
    ed.move_to(1);
    let k = KeyStroke { key: Key::Backspace, shift: false, platform: false, has_key_char: true };
    let effect = ed.on_key_down(k);
    assert_eq!(effect, ClipboardEffect::Nothing);
    assert_eq!(ed.content().as_slice(), b"ab");
    assert_eq!(ed.cursor_offset(), 1);
}

#[test]
fn key_shift_arrows_extend_selection() {
    let mut ed = editor_with("abc");
    ed.move_to(1);
    ed.on_key_down(key_shift(Key::ArrowRight));
    assert_eq!(ed.selected_range(), TextRange { start: 1, end: 2 });
    ed.on_key_down(key_shift(Key::ArrowLeft));
    assert_eq!(ed.selected_range(), TextRange { start: 1, end: 1 });
    ed.on_key_down(key_shift(Key::ArrowLeft));
    assert_eq!(ed.selected_range(), TextRange { start: 0, end: 1 });
    assert!(ed.is_reversed());
}

#[test]
fn key_home_and_end_move_within_line() {
    let mut ed = editor_with("ab\ncdef");
    ed.move_to(5);
    ed.on_key_down(key(Key::Home));
    assert_eq!(ed.cursor_offset(), 3);
    ed.on_key_down(key(Key::End));
    assert_eq!(ed.cursor_offset(), 7);
}

#[test]
fn key_shift_down_extends_from_original_caret() {
    // The anchor stays pinned at the pre-keystroke caret; the caret is the
    // new vertical position.
    let mut ed = editor_with("ab\ncd");
    ed.move_to(1);
    ed.on_key_down(key_shift(Key::ArrowDown));
    assert_eq!(ed.selected_range(), TextRange { start: 1, end: 4 });
    assert!(!ed.is_reversed());
    assert_eq!(ed.cursor_offset(), 4);
}

#[test]
fn key_shift_up_puts_caret_at_vertical_target() {
    let mut ed = editor_with("ab\ncd");
    ed.move_to(4);
    ed.on_key_down(key_shift(Key::ArrowUp));
    assert_eq!(ed.selected_range(), TextRange { start: 1, end: 4 });
    assert!(ed.is_reversed());
    assert_eq!(ed.cursor_offset(), 1);
}

#[test]
fn repeated_shift_down_walks_line_by_line() {
    // Because the caret moves to the vertical target, a second shift+down
    // extends a line further (re-anchored at the previous caret).
    let mut ed = editor_with("a\nb\nc");
    ed.move_to(0);
    ed.on_key_down(key_shift(Key::ArrowDown));
    assert_eq!(ed.cursor_offset(), 2);
    ed.on_key_down(key_shift(Key::ArrowDown));
    assert_eq!(ed.cursor_offset(), 4);
    assert_eq!(ed.selected_range(), TextRange { start: 2, end: 4 });
}

#[test]
fn key_select_all() {
    let mut ed = editor_with("ab\ncd");
    ed.move_to(1);
    ed.on_key_down(key_platform(Key::LetterA));
    assert_eq!(ed.selected_range(), TextRange { start: 0, end: 5 });
}

#[test]
fn key_copy_hands_out_selection() {
    let mut ed = editor_with("abcdef");
    ed.move_to(1);
    ed.select_to(4);
    let effect = ed.on_key_down(key_platform(Key::LetterC));
    assert_eq!(effect, ClipboardEffect::Write(b"bcd".to_vec()));
    assert_eq!(ed.content().as_slice(), b"abcdef");
}

#[test]
fn key_copy_with_empty_selection_does_nothing() {
    let mut ed = editor_with("abcdef");
    ed.move_to(2);
    let effect = ed.on_key_down(key_platform(Key::LetterC));
    assert_eq!(effect, ClipboardEffect::Nothing);
}

#[test]
fn key_cut_hands_out_selection_and_deletes_it() {
    let mut ed = editor_with("abcdef");
    ed.move_to(1);
    ed.select_to(4);
    let effect = ed.on_key_down(key_platform(Key::LetterX));
    assert_eq!(effect, ClipboardEffect::Write(b"bcd".to_vec()));
    assert_eq!(ed.content().as_slice(), b"aef");
    assert_eq!(ed.selected_range(), TextRange { start: 1, end: 1 });
}

#[test]
fn key_paste_requests_clipboard_text() {
    let mut ed = editor_with("ab");
    ed.move_to(1);
    let effect = ed.on_key_down(key_platform(Key::LetterV));
    assert_eq!(effect, ClipboardEffect::ReadAndInsert);
    assert_eq!(ed.content().as_slice(), b"ab");
    // The shell reads the clipboard and hands the text back.
    let pasted = b"XY".to_vec();
    ed.replace_text_in_range(None, &pasted);
    assert_eq!(ed.content().as_slice(), b"aXYb");
}

#[test]
fn key_without_platform_modifier_falls_through() {
    let mut ed = editor_with("abcdef");
    ed.move_to(1);
    ed.select_to(4);
    let effect = ed.on_key_down(key(Key::LetterC));
    assert_eq!(effect, ClipboardEffect::Nothing);
    let effect = ed.on_key_down(key(Key::LetterV));
    assert_eq!(effect, ClipboardEffect::Nothing);
}

#[test]
fn mouse_drag_state_machine() {
    let mut ed = editor_with("ab\ncd");
    ed.set_layout(
        LineLayout { positions: vec![0, 8, 16] },
        BoundsPx { left: 0, top: 0, right: 100, bottom: 100 },
    );
    // Press on line 0 near "b", drag to line 1, release.
    ed.on_mouse_down(PointPx { x: 9, y: 5 }, false);
    assert_eq!(ed.cursor_offset(), 1);
    ed.on_mouse_move(PointPx { x: 9, y: 25 });
    assert_eq!(ed.selected_range(), TextRange { start: 1, end: 4 });
    ed.on_mouse_up();
    // After release, moves no longer extend the selection.
    ed.on_mouse_move(PointPx { x: 0, y: 5 });
    assert_eq!(ed.selected_range(), TextRange { start: 1, end: 4 });
}

#[test]
fn mouse_down_with_shift_extends() {
    let mut ed = editor_with("abcd");
    ed.set_layout(
        LineLayout { positions: vec![0, 8, 16, 24, 32] },
        BoundsPx { left: 0, top: 0, right: 100, bottom: 100 },
    );
    ed.move_to(1);
    ed.on_mouse_down(PointPx { x: 24, y: 5 }, true);
    assert_eq!(ed.selected_range(), TextRange { start: 1, end: 3 });
}

#[test]
fn hit_test_below_content_clamps_to_end() {
    let mut ed = editor_with("ab\ncd");
    ed.set_layout(
        LineLayout { positions: vec![0, 8, 16] },
        BoundsPx { left: 0, top: 0, right: 100, bottom: 100 },
    );
    assert_eq!(ed.index_for_mouse_position(PointPx { x: 3, y: 500 }), 5);
}

#[test]
fn hit_test_left_of_viewport_gives_line_start() {
    let mut ed = editor_with("ab\ncd");
    ed.set_layout(
        LineLayout { positions: vec![0, 8, 16] },
        BoundsPx { left: 10, top: 0, right: 100, bottom: 100 },
    );
    assert_eq!(ed.index_for_mouse_position(PointPx { x: 3, y: 25 }), 3);
}

#[test]
fn hit_test_without_layout_gives_zero() {
    let ed = editor_with("ab\ncd");
    assert_eq!(ed.index_for_mouse_position(PointPx { x: 9, y: 5 }), 0);
}

#[test]
fn bounds_for_range_uses_layout_positions() {
    let mut ed = editor_with("abcd");
    ed.set_layout(
        LineLayout { positions: vec![0, 8, 16, 24, 32] },
        BoundsPx { left: 0, top: 0, right: 100, bottom: 100 },
    );
    let b = BoundsPx { left: 5, top: 7, right: 105, bottom: 27 };
    let vb = ed.bounds_for_range(TextRange { start: 1, end: 3 }, b).unwrap();
    assert_eq!(vb.left, 13);
    assert_eq!(vb.right, 29);
    assert_eq!(vb.top, 7);
    assert_eq!(vb.bottom, 27);
}

#[test]
fn bounds_for_range_without_layout_is_none() {
    let ed = editor_with("abcd");
    let b = BoundsPx { left: 0, top: 0, right: 100, bottom: 100 };
    assert_eq!(ed.bounds_for_range(TextRange { start: 0, end: 1 }, b), None);
}

#[test]
fn character_index_for_point_reports_utf16() {
    let mut ed = editor_with("猫ab");
    ed.set_layout(
        LineLayout { positions: vec![0, 8, 16, 24] },
        BoundsPx { left: 0, top: 0, right: 100, bottom: 100 },
    );
    // The layout indexes the bytes of the line: x = 24 reaches byte 3,
    // which is one UTF-16 unit after the three-byte cat.
    assert_eq!(ed.character_index_for_point(PointPx { x: 24, y: 5 }), Some(1));
    // A point outside the viewport hits nothing.
    assert_eq!(ed.character_index_for_point(PointPx { x: 300, y: 5 }), None);
}

#[test]
fn selected_text_range_reports_direction() {
    let mut ed = editor_with("abc");
    ed.move_to(2);
    ed.select_to(0);
    let (range16, reversed) = ed.selected_text_range();
    assert_eq!(range16, TextRange { start: 0, end: 2 });
    assert!(reversed);
}

#[test]
fn text_for_range_clamps_past_the_end() {
    let ed = editor_with("猫ab");
    let (text, actual) = ed.text_for_range(TextRange { start: 1, end: 99 });
    assert_eq!(text.as_slice(), b"ab");
    assert_eq!(actual, TextRange { start: 1, end: 3 });
}

#[test]
fn backspace_deletes_active_selection() {
    let mut ed = editor_with("abcdef");
    ed.move_to(1);
    ed.select_to(4);
    ed.on_backspace();
    assert_eq!(ed.content().as_slice(), b"aef");
    assert_eq!(ed.selected_range(), TextRange { start: 1, end: 1 });
}

#[test]
fn backspace_removes_whole_emoji() {
    let mut ed = editor_with("a😀");
    ed.on_backspace();
    assert_eq!(ed.content().as_slice(), b"a");
    assert_eq!(ed.cursor_offset(), 1);
}

#[test]
fn hit_test_tolerates_stale_layout() {
    // The layout was shaped for older, longer content: the hit test clamps
    // to the current line's length instead of failing.
    let mut ed = editor_with("abcdef");
    ed.set_layout(
        LineLayout { positions: vec![0, 8, 16, 24, 32, 40, 48] },
        BoundsPx { left: 0, top: 0, right: 100, bottom: 100 },
    );
    ed.set_content("ab".as_bytes().to_vec());
    assert_eq!(ed.index_for_mouse_position(PointPx { x: 48, y: 5 }), 2);
}
