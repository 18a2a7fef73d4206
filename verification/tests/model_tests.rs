use tap_notes::encoding::offset_from_utf16;
use tap_notes::encoding::offset_to_utf16;
use tap_notes::graphemes::next_boundary;
use tap_notes::graphemes::previous_boundary;
use tap_notes::layout::LineLayout;
use tap_notes::lines::line_at_offset;
use tap_notes::lines::line_length;
use tap_notes::lines::offset_at_line_end;
use tap_notes::lines::offset_at_line_start;
use tap_notes::notes::NoteDirectory;
use tap_notes::title::resolve_title;
use tap_notes::title::title_is_blank;
use tap_notes::utf8::snap_to_boundary;

fn bytes(s: &str) -> Vec<u8> {
    s.as_bytes().to_vec()
}

#[test]
fn utf16_round_trip_on_mixed_content() {
    // "a" (1 byte, 1 unit), "猫" (3 bytes, 1 unit), "😀" (4 bytes, 2 units).
    let content = bytes("a猫😀b");
    for &o in &[0usize, 1, 4, 8, 9] {
        let u = offset_to_utf16(&content, o);
        assert_eq!(offset_from_utf16(&content, u), o);
    }
    assert_eq!(offset_to_utf16(&content, 1), 1);
    assert_eq!(offset_to_utf16(&content, 4), 2);
    assert_eq!(offset_to_utf16(&content, 8), 4);
    assert_eq!(offset_to_utf16(&content, 9), 5);
}

#[test]
fn utf16_conversion_clamps_past_the_end() {
    let content = bytes("a猫");
    assert_eq!(offset_from_utf16(&content, 9), 4);
    assert_eq!(offset_to_utf16(&content, 100), 2);
}

#[test]
fn utf16_conversion_rounds_up_inside_a_scalar() {
    // Offset 2 splits the cat; conversion rounds to the unit after it.
    let content = bytes("猫a");
    assert_eq!(offset_to_utf16(&content, 2), 1);
    // UTF-16 offset 1 splits the emoji's surrogate pair; conversion rounds
    // to the byte after it.
    let emoji = bytes("😀a");
    assert_eq!(offset_from_utf16(&emoji, 1), 4);
}

#[test]
fn grapheme_boundaries_group_combining_marks() {
    // "e" + U+0301 is one grapheme of three bytes.
    let content = bytes("e\u{301}");
    assert_eq!(next_boundary(&content, 0), 3);
    assert_eq!(previous_boundary(&content, 3), 0);
}

#[test]
fn grapheme_boundary_monotonicity_samples() {
    let content = bytes("ae\u{301}猫b");
    let len = content.len();
    for o in 0..=len {
        let n = next_boundary(&content, o);
        let p = previous_boundary(&content, o);
        assert!(previous_boundary(&content, n) <= o);
        assert!(o <= next_boundary(&content, p));
    }
}

#[test]
fn grapheme_boundaries_at_the_ends() {
    let content = bytes("ab");
    assert_eq!(previous_boundary(&content, 0), 0);
    assert_eq!(next_boundary(&content, 2), 2);
    let empty = bytes("");
    assert_eq!(previous_boundary(&empty, 0), 0);
    assert_eq!(next_boundary(&empty, 0), 0);
}

#[test]
fn line_queries_on_two_lines() {
    let content = bytes("ab\ncd");
    assert_eq!(line_at_offset(&content, 0), 0);
    // An offset exactly at the separator belongs to the line ending there.
    assert_eq!(line_at_offset(&content, 2), 0);
    assert_eq!(line_at_offset(&content, 3), 1);
    assert_eq!(line_at_offset(&content, 5), 1);
    assert_eq!(offset_at_line_start(&content, 0), 0);
    assert_eq!(offset_at_line_start(&content, 1), 3);
    assert_eq!(offset_at_line_end(&content, 0), 2);
    assert_eq!(offset_at_line_end(&content, 1), 5);
    assert_eq!(line_length(&content, 0), 2);
    assert_eq!(line_length(&content, 1), 2);
}

#[test]
fn line_queries_clamp_past_the_last_line() {
    let content = bytes("ab\ncd");
    assert_eq!(offset_at_line_start(&content, 7), 5);
    assert_eq!(offset_at_line_end(&content, 7), 5);
    assert_eq!(line_length(&content, 7), 0);
}

#[test]
fn line_queries_on_empty_and_trailing_newline() {
    let empty = bytes("");
    assert_eq!(line_at_offset(&empty, 0), 0);
    assert_eq!(line_length(&empty, 0), 0);

    let trailing = bytes("ab\n");
    assert_eq!(line_at_offset(&trailing, 3), 1);
    assert_eq!(offset_at_line_start(&trailing, 1), 3);
    assert_eq!(line_length(&trailing, 1), 0);
}

#[test]
fn snap_to_boundary_steps_back_over_continuations() {
    let content = bytes("猫a");
    assert_eq!(snap_to_boundary(&content, 0), 0);
    assert_eq!(snap_to_boundary(&content, 1), 0);
    assert_eq!(snap_to_boundary(&content, 2), 0);
    assert_eq!(snap_to_boundary(&content, 3), 3);
    assert_eq!(snap_to_boundary(&content, 4), 4);
}

#[test]
fn closest_index_prefers_earlier_on_ties() {
    let lay = LineLayout { positions: vec![0, 8, 16] };
    assert_eq!(lay.closest_index_for_x(4), 0);
    assert_eq!(lay.closest_index_for_x(5), 1);
    assert_eq!(lay.closest_index_for_x(100), 2);
    assert_eq!(lay.closest_index_for_x(-3), 0);
}

#[test]
fn index_for_x_finds_containing_character() {
    let lay = LineLayout { positions: vec![0, 8, 16] };
    assert_eq!(lay.index_for_x(0), Some(0));
    assert_eq!(lay.index_for_x(7), Some(0));
    assert_eq!(lay.index_for_x(8), Some(1));
    assert_eq!(lay.index_for_x(16), Some(2));
    assert_eq!(lay.index_for_x(17), None);
    assert_eq!(lay.index_for_x(-1), None);
}

#[test]
fn x_for_index_clamps_to_trailing_edge() {
    let lay = LineLayout { positions: vec![0, 8, 16] };
    assert_eq!(lay.x_for_index(1), 8);
    assert_eq!(lay.x_for_index(9), 16);
    let empty = LineLayout { positions: vec![] };
    assert_eq!(empty.x_for_index(3), 0);
}

#[test]
fn blank_titles_fall_back() {
    let edited = bytes("  \u{00A0} ");
    assert!(title_is_blank(&edited));
    assert!(!title_is_blank(&bytes(" a ")));

    let kept = resolve_title(&bytes("  My Note"), &bytes("Old"));
    assert_eq!(kept, bytes("  My Note"));

    let reverted = resolve_title(&edited, &bytes("Old"));
    assert_eq!(reverted, bytes("Old"));

    let defaulted = resolve_title(&edited, &bytes("   "));
    assert_eq!(defaulted, bytes("Untitled Note"));
}

#[test]
fn note_directory_tracks_active_note() {
    let mut dir = NoteDirectory::new();
    assert_eq!(dir.active(), None);
    dir.load(vec![10, 20, 30]);
    assert_eq!(dir.active(), Some(10));
    dir.set_active(20);
    dir.add_note(40);
    assert_eq!(dir.ids().as_slice(), &[10, 20, 30, 40]);
    assert_eq!(dir.active(), Some(40));
}

#[test]
fn deleting_the_active_note_falls_back_to_first() {
    let mut dir = NoteDirectory::new();
    dir.load(vec![10, 20, 30]);
    dir.set_active(20);
    dir.apply_delete(20);
    assert_eq!(dir.ids().as_slice(), &[10, 30]);
    assert_eq!(dir.active(), Some(10));

    dir.apply_delete(30);
    assert_eq!(dir.ids().as_slice(), &[10]);
    assert_eq!(dir.active(), Some(10));

    dir.apply_delete(10);
    assert_eq!(dir.ids().as_slice(), &[] as &[u128]);
    assert_eq!(dir.active(), None);
}

#[test]
fn delete_queue_drains_once() {
    let mut dir = NoteDirectory::new();
    dir.load(vec![1, 2]);
    dir.queue_delete(2);
    dir.queue_delete(1);
    let pending = dir.drain_pending();
    assert_eq!(pending, vec![2, 1]);
    assert!(dir.drain_pending().is_empty());
    for id in pending {
        dir.apply_delete(id);
    }
    assert_eq!(dir.active(), None);
}
