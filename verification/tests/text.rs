use hopes::display::{
    cut_text, list_position, pane_layout, pane_percentages, progress_bar, selection_runs, tag_line, PaneLayout,
};
use hopes::filter::contains_ignore_case;
use hopes::forms::{join_tags, parse_tag_list};

#[test]
fn contains_ignore_case_examples() {
    assert!(contains_ignore_case("Write Compiler", "compiler"));
    assert!(contains_ignore_case("anything", ""));
    assert!(!contains_ignore_case("abc", "abcd"));
    assert!(contains_ignore_case("ÉCOLE", "école"));
    assert!(!contains_ignore_case("rust", "ui"));
}

#[test]
fn tag_lists_parse_and_join() {
    assert_eq!(parse_tag_list(" a ,b,, c "), vec!["a".to_string(), "b".to_string(), "c".to_string()]);
    assert!(parse_tag_list("").is_empty());
    assert!(parse_tag_list(" , ,").is_empty());
    let tags = vec!["x".to_string(), "y z".to_string()];
    assert_eq!(join_tags(&tags), "x, y z");
    assert_eq!(join_tags(&Vec::new()), "");
    assert_eq!(parse_tag_list(&join_tags(&tags)), tags);
}

#[test]
fn text_is_cut_after_whole_bytes() {
    assert_eq!(cut_text("short", 28), "short");
    assert_eq!(cut_text("abcdefgh", 4), "abcd...");
    assert_eq!(cut_text("abcd", 4), "abcd");
    assert_eq!(cut_text("héllo", 3), "hé...");
}

#[test]
fn progress_bar_fills_by_percent() {
    assert_eq!(progress_bar(0), "[................]");
    assert_eq!(progress_bar(50), "[========........]");
    assert_eq!(progress_bar(33), "[=====...........]");
    assert_eq!(progress_bar(100), "[================]");
}

#[test]
fn tag_line_prefixes_hashes() {
    assert_eq!(tag_line(&vec!["rust".to_string(), "core".to_string()]), "#rust #core");
    assert_eq!(tag_line(&Vec::new()), "");
}

#[test]
fn list_position_examples() {
    assert_eq!(list_position(Some(0), 4), (1, 25));
    assert_eq!(list_position(Some(3), 4), (4, 100));
    assert_eq!(list_position(None, 4), (0, 0));
    assert_eq!(list_position(Some(2), 0), (0, 0));
}

#[test]
fn selection_runs_split_lines_and_flags() {
    let runs = selection_runs("abc\ndef", 4, 1);
    assert_eq!(
        runs,
        vec![
            vec![("a".to_string(), false), ("bc".to_string(), true)],
            vec![("d".to_string(), true), ("ef".to_string(), false)],
        ]
    );
    let all = selection_runs("xy", 0, 9);
    assert_eq!(all, vec![vec![("xy".to_string(), true)]]);
    let trailing = selection_runs("a\n", 0, 0);
    assert_eq!(trailing, vec![vec![("a".to_string(), true)], vec![]]);
}

#[test]
fn pane_layout_follows_width() {
    assert_eq!(pane_layout(u16::MAX), PaneLayout::NavMainInspector);
    assert_eq!(pane_layout(115), PaneLayout::NavMainInspector);
    assert_eq!(pane_layout(114), PaneLayout::MainInspector);
    assert_eq!(pane_layout(80), PaneLayout::MainInspector);
    assert_eq!(pane_layout(79), PaneLayout::MainOnly);
    assert_eq!(pane_layout(0), PaneLayout::MainOnly);
}

#[test]
fn pane_percentages_per_layout() {
    assert_eq!(pane_percentages(PaneLayout::NavMainInspector), vec![18, 48, 34]);
    assert_eq!(pane_percentages(PaneLayout::MainInspector), vec![60, 40]);
    assert_eq!(pane_percentages(PaneLayout::MainOnly), vec![100]);
    for layout in [PaneLayout::NavMainInspector, PaneLayout::MainInspector, PaneLayout::MainOnly] {
        assert_eq!(pane_percentages(layout).iter().map(|p| *p as u32).sum::<u32>(), 100);
    }
}

#[test]
fn tag_lists_trim_unicode_whitespace() {
    assert_eq!(
        parse_tag_list("\u{3000}a\u{a0}, b\u{2009},\u{85}"),
        vec!["a".to_string(), "b".to_string()]
    );
    assert!(contains_ignore_case("Mixed CASE text", "case TEXT"));
    assert!(!contains_ignore_case("short", "SHORTER"));
}
