use hopes::textedit::{
    backspace, caret_down, caret_left, caret_right, caret_up, char_len, clamp_normal, delete_char,
    delete_line, delete_range, delete_to_line_end, enter_insert_after, enter_insert_before,
    enter_insert_line_end, enter_insert_line_start, insert_char, line_end, line_start, move_down,
    move_left, move_right, move_up, open_above, open_below, paste_after, paste_before,
    row_col_of_cursor, selection_range, word_back, word_end, word_forward, yank_range,
};

#[test]
fn hl_stay_within_line() {
    let s = "abc\ndef";
    assert_eq!(move_left("abc\ndef", 0), 0);
    assert_eq!(move_right(s, 2), 2); // 'c' is last char of line 1
    assert_eq!(move_right(s, 3.min(char_len(s))), 2);
}

#[test]
fn caret_left_right_allow_resting_past_the_last_char() {
    // Insert-mode carets may rest after the last character, unlike the
    // Normal-mode motions (which clamp to len-1).
    let s = "helloworld"; // len 10, valid caret positions are 0..=10
    assert_eq!(caret_left(s, 10), 9);
    assert_eq!(caret_right(s, 10), 10); // already at end, no-op
    assert_eq!(caret_left(s, 0), 0);

    let mut cursor = 10;
    for _ in 0..5 {
        cursor = caret_left(s, cursor);
    }
    assert_eq!(cursor, 5);
}

#[test]
fn caret_up_down_allow_resting_past_the_last_char_of_each_line() {
    let s = "ab\ncd";
    assert_eq!(caret_down(s, 2), 5); // end of "ab" -> end of "cd" (both len 2)
    assert_eq!(caret_up(s, 5), 2);
}

#[test]
fn zero_and_dollar() {
    let s = "hello world\nsecond";
    assert_eq!(line_start(s, 8), 0);
    assert_eq!(line_end(s, 2), 10); // 'd' of "world"
    assert_eq!(line_start(s, 14), 12);
    assert_eq!(line_end(s, 14), 17); // 'd' of "second"
}

#[test]
fn word_motions() {
    let s = "foo   bar baz";
    assert_eq!(word_forward(s, 0), 6); // start of "bar"
    assert_eq!(word_forward(s, 6), 10); // start of "baz"
    assert_eq!(word_end(s, 0), 2); // end of "foo"
    assert_eq!(word_end(s, 2), 8); // 'o' -> end of "bar"
    assert_eq!(word_back(s, 10), 6); // start of "bar"
    assert_eq!(word_back(s, 6), 0); // start of "foo"
}

#[test]
fn up_down_clamp_into_short_lines() {
    // No persistent "desired column" memory (unlike real vim) — once a
    // move clamps into a short line, subsequent moves carry the clamped
    // column forward rather than the starting one.
    let s = "abcdef\nxy\nqrstuv";
    let down = move_down(s, 4); // col 4 on "abcdef" -> clamped into "xy"
    assert_eq!(down, 8); // 'y', last char of "xy"
    let down2 = move_down(s, down); // col 1 carried into "qrstuv"
    assert_eq!(down2, 11); // 'r'
    let up = move_up(s, down2); // col 1 carried back into "xy"
    assert_eq!(up, 8);
}

#[test]
fn x_deletes_under_cursor_and_clamps() {
    let mut s = "abc".to_string();
    let cursor = delete_char(&mut s, 2);
    assert_eq!(s, "ab");
    assert_eq!(cursor, 1);
}

#[test]
fn dd_removes_whole_line_including_newline() {
    let mut s = "one\ntwo\nthree".to_string();
    let cursor = delete_line(&mut s, 5); // inside "two"
    assert_eq!(s, "one\nthree");
    assert_eq!(cursor, 4); // start of "three"
}

#[test]
fn dd_on_only_line_clears_buffer() {
    let mut s = "solo".to_string();
    let cursor = delete_line(&mut s, 2);
    assert_eq!(s, "");
    assert_eq!(cursor, 0);
}

#[test]
fn capital_d_deletes_to_line_end_only() {
    let mut s = "keep this\nand this".to_string();
    let cursor = delete_to_line_end(&mut s, 4); // after "keep"
    assert_eq!(s, "keep\nand this");
    assert_eq!(cursor, 3);
}

#[test]
fn insert_and_backspace_are_cursor_aware() {
    let mut s = "helloworld".to_string();
    let cursor = insert_char(&mut s, 5, ' ');
    assert_eq!(s, "hello world");
    assert_eq!(cursor, 6);
    let cursor = backspace(&mut s, cursor);
    assert_eq!(s, "helloworld");
    assert_eq!(cursor, 5);
}

#[test]
fn open_below_without_newline_support_just_appends() {
    let mut s = "title".to_string();
    let cursor = open_below(&mut s, 0, false);
    assert_eq!(s, "title");
    assert_eq!(cursor, 5);
}

#[test]
fn open_below_with_newline_support_splits_line() {
    let mut s = "one".to_string();
    let cursor = open_below(&mut s, 1, true);
    assert_eq!(s, "one\n");
    assert_eq!(cursor, 4);
}

#[test]
fn insert_positions_ia_ie_a_shift_correctly() {
    let s = "hey\nyou";
    assert_eq!(enter_insert_before(s, 5), 5);
    assert_eq!(enter_insert_after(s, 1), 2);
    assert_eq!(enter_insert_line_start(s, 5), 4);
    assert_eq!(enter_insert_line_end(s, 5), 7);
}

#[test]
fn empty_buffer_is_safe() {
    let s = "";
    assert_eq!(clamp_normal(s, 0), 0);
    assert_eq!(move_left(s, 0), 0);
    assert_eq!(move_right(s, 0), 0);
    assert_eq!(word_forward(s, 0), 0);
    assert_eq!(line_end(s, 0), 0);
    let mut owned = String::new();
    assert_eq!(delete_char(&mut owned, 0), 0);
    assert_eq!(delete_line(&mut owned, 0), 0);
}

#[test]
fn visual_selection_is_inclusive_regardless_of_direction() {
    let s = "hello world";
    // anchor before cursor
    assert_eq!(selection_range(2, 6), (2, 6));
    // anchor after cursor (selected backward) normalizes the same way
    assert_eq!(selection_range(6, 2), (2, 6));
    assert_eq!(yank_range(s, 0, 4), "hello");
    assert_eq!(yank_range(s, 6, 10), "world");
}

#[test]
fn delete_range_removes_inclusive_span_and_lands_cursor_at_lo() {
    let mut s = "hello world".to_string();
    let cursor = delete_range(&mut s, 0, 4);
    assert_eq!(s, " world");
    assert_eq!(cursor, 0);
}

#[test]
fn yank_then_paste_after_and_before() {
    let mut s = "hello world".to_string();
    let clip = yank_range(&s, 6, 10); // "world"
    assert_eq!(clip, "world");

    let cursor = paste_after(&mut s, 4, &clip); // after the 'o' of hello
    assert_eq!(s, "helloworld world");
    assert_eq!(cursor, 9); // resting on last pasted char

    let mut s2 = "hi".to_string();
    let cursor2 = paste_before(&mut s2, 0, "XY");
    assert_eq!(s2, "XYhi");
    assert_eq!(cursor2, 1);
}

#[test]
fn paste_of_empty_clipboard_is_a_no_op() {
    let mut s = "abc".to_string();
    let cursor = paste_after(&mut s, 1, "");
    assert_eq!(s, "abc");
    assert_eq!(cursor, 1);
}

#[test]
fn open_above_splits_before_the_line() {
    let mut s = "one\ntwo".to_string();
    let cursor = open_above(&mut s, 5, true);
    assert_eq!(s, "one\n\ntwo");
    assert_eq!(cursor, 4);

    let mut t = "title".to_string();
    let cursor = open_above(&mut t, 3, false);
    assert_eq!(t, "title");
    assert_eq!(cursor, 0);
}

#[test]
fn row_col_counts_lines_and_columns() {
    assert_eq!(row_col_of_cursor("ab\ncd", 0), (0, 0));
    assert_eq!(row_col_of_cursor("ab\ncd", 2), (0, 2));
    assert_eq!(row_col_of_cursor("ab\ncd", 4), (1, 1));
    assert_eq!(row_col_of_cursor("ab\ncd", 99), (1, 2));
}

#[test]
fn char_len_counts_characters_not_bytes() {
    assert_eq!(char_len("héllo"), 5);
    assert_eq!(char_len(""), 0);
}

#[test]
fn clamp_normal_is_idempotent_on_examples() {
    let s = "abc\nde";
    for c in 0..10 {
        let once = clamp_normal(s, c);
        assert_eq!(clamp_normal(s, once), once);
        assert!(once < char_len(s));
    }
}

#[test]
fn backspace_undoes_insert_on_examples() {
    for (text, cursor) in [("", 0usize), ("abc", 0), ("abc", 2), ("abc", 3), ("a\nb", 2)] {
        let mut s = text.to_string();
        let c = insert_char(&mut s, cursor, 'Z');
        let back = backspace(&mut s, c);
        assert_eq!(s, text);
        assert_eq!(back, cursor);
    }
}

#[test]
fn paste_before_restores_a_deleted_range() {
    let mut s = "hello world".to_string();
    let clip = yank_range(&s, 2, 7);
    assert_eq!(clip, "llo wo");
    let cursor = delete_range(&mut s, 2, 7);
    assert_eq!(s, "herld");
    assert_eq!(cursor, 2);
    paste_before(&mut s, cursor, &clip);
    assert_eq!(s, "hello world");
}

#[test]
fn caret_moves_stay_within_lines() {
    let s = "ab\ncd";
    assert_eq!(caret_right(s, 2), 2);
    assert_eq!(caret_left(s, 3), 3);
    assert_eq!(caret_right(s, 1), 2);
    assert_eq!(caret_up(s, 1), 1);
    assert_eq!(caret_down(s, 1), 4);
}

#[test]
fn motions_past_the_end_are_clamped() {
    let s = "abc";
    assert_eq!(move_right(s, 50), 2);
    assert_eq!(move_left(s, 50), 1);
    assert_eq!(line_start(s, 50), 0);
    assert_eq!(line_end(s, 50), 2);
    assert_eq!(word_end(s, 0), 2);
    assert_eq!(word_back(s, 2), 0);
    assert_eq!(move_up(s, 1), 1);
    assert_eq!(move_down(s, 1), 1);
}

#[test]
fn delete_to_line_end_on_last_line() {
    let mut s = "abc\ndef".to_string();
    let cursor = delete_to_line_end(&mut s, 5);
    assert_eq!(s, "abc\nd");
    assert_eq!(cursor, 4);
}

#[test]
fn insert_positions_on_empty_buffer() {
    assert_eq!(enter_insert_before("", 3), 0);
    assert_eq!(enter_insert_after("", 3), 0);
    assert_eq!(enter_insert_line_start("", 3), 0);
    assert_eq!(enter_insert_line_end("", 3), 0);
    assert_eq!(selection_range(4, 4), (4, 4));
    let mut s = String::new();
    assert_eq!(delete_char(&mut s, 3), 0);
    assert_eq!(delete_line(&mut s, 3), 0);
}
