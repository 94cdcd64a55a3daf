use hopes::app::{App, AppMode, FocusPane, FormField, ViewMode};
use hopes::keys::{normal_command, Command, Key, KeyAction, KeyPress};
use hopes::models::{Item, Priority, Status};

fn key(c: char) -> KeyPress {
    KeyPress { code: Key::Char(c), ctrl: false }
}

fn ctrl(c: char) -> KeyPress {
    KeyPress { code: Key::Char(c), ctrl: true }
}

fn special(code: Key) -> KeyPress {
    KeyPress { code, ctrl: false }
}

fn sample() -> App {
    App::new(vec![
        Item::new("alpha".to_string(), vec!["x".to_string()]),
        Item::new("beta".to_string(), Vec::new()),
        Item::new("gamma".to_string(), vec!["y".to_string()]),
    ])
}

#[test]
fn key_map_examples() {
    let t = ViewMode::Table;
    let m = FocusPane::Main;
    assert_eq!(normal_command(key('q'), t, m), Command::Quit);
    assert_eq!(normal_command(ctrl('c'), t, m), Command::Quit);
    assert_eq!(normal_command(key('c'), t, m), Command::Edit);
    assert_eq!(normal_command(ctrl('d'), t, m), Command::PageDown);
    assert_eq!(normal_command(key('d'), t, m), Command::PendingD);
    assert_eq!(normal_command(key('H'), ViewMode::Kanban, m), Command::ShiftLeft);
    assert_eq!(normal_command(key('H'), t, m), Command::Top);
    assert_eq!(normal_command(key('L'), t, m), Command::Bottom);
    assert_eq!(normal_command(key('3'), t, FocusPane::Nav), Command::NavEntry(2));
    assert_eq!(normal_command(key('5'), t, FocusPane::Nav), Command::NavEntry(4));
    assert_eq!(normal_command(key('3'), t, m), Command::SetPriority(Priority::Medium));
    assert_eq!(normal_command(key('5'), t, m), Command::Nothing);
    assert_eq!(normal_command(special(Key::Tab), t, m), Command::NextPane);
    assert_eq!(normal_command(KeyPress { code: Key::Tab, ctrl: true }, t, m), Command::NextPane);
    assert_eq!(normal_command(special(Key::Esc), t, m), Command::ClearFilter);
}

#[test]
fn quit_and_sync_keys_reach_the_front_end() {
    let mut app = sample();
    assert_eq!(app.handle_key(key('j')), KeyAction::Continue);
    assert_eq!(app.handle_key(key('q')), KeyAction::Quit);
    assert_eq!(app.handle_key(ctrl('c')), KeyAction::Quit);
    app.pending_d = true;
    assert_eq!(app.handle_key(key('S')), KeyAction::ForceSync);
    assert!(!app.pending_d);
    assert_eq!(app.handle_key(special(Key::F5)), KeyAction::ForceSync);
    app.handle_key(key('a'));
    assert_eq!(app.handle_key(key('q')), KeyAction::Continue);
    assert_eq!(app.form_title, "q");
}

#[test]
fn gg_and_dd_are_two_key_commands() {
    let mut app = sample();
    app.handle_key(key('G'));
    assert_eq!(app.selected, Some(2));
    app.handle_key(key('g'));
    assert!(app.pending_g);
    app.handle_key(key('g'));
    assert!(!app.pending_g);
    assert_eq!(app.selected, Some(0));
    app.handle_key(key('d'));
    assert!(app.pending_d);
    app.handle_key(key('j'));
    assert!(!app.pending_d);
    assert_eq!(app.items.len(), 3);
    app.handle_key(key('d'));
    app.handle_key(key('d'));
    assert_eq!(app.items.len(), 2);
    assert_eq!(app.items[0].title, "alpha");
    app.handle_key(key('u'));
    assert_eq!(app.items.len(), 3);
    assert_eq!(app.items[1].title, "beta");
}

#[test]
fn space_and_digits_change_the_selected_task() {
    let mut app = sample();
    app.handle_key(key(' '));
    assert_eq!(app.items[0].status, Status::InProgress);
    app.handle_key(key('1'));
    assert_eq!(app.items[0].priority, Priority::Urgent);
    app.handle_key(key('p'));
    assert_eq!(app.items[0].priority, Priority::High);
    app.handle_key(key('P'));
    assert_eq!(app.items[0].priority, Priority::Urgent);
    app.handle_key(key('J'));
    assert_eq!(app.items[1].title, "alpha");
    assert_eq!(app.selected, Some(1));
}

#[test]
fn search_field_applies_trimmed_query() {
    let mut app = sample();
    app.handle_key(key('/'));
    assert_eq!(app.mode, AppMode::Filtering);
    for c in [' ', 'g', 'a', 'm', 'x'] {
        app.handle_key(key(c));
    }
    app.handle_key(special(Key::Backspace));
    assert_eq!(app.filter_input, " gam");
    app.handle_key(special(Key::Enter));
    assert_eq!(app.mode, AppMode::Normal);
    assert_eq!(app.tag_filter.as_deref(), Some("gam"));
    assert_eq!(app.get_filtered_indices(), &[2]);
    app.handle_key(special(Key::Esc));
    assert_eq!(app.tag_filter, None);
    assert_eq!(app.get_filtered_indices().len(), 3);
}

#[test]
fn form_keys_type_move_and_save() {
    let mut app = sample();
    app.handle_key(key('a'));
    assert_eq!(app.mode, AppMode::Creating);
    for c in "New".chars() {
        app.handle_key(key(c));
    }
    app.handle_key(special(Key::Backspace));
    assert_eq!(app.form_title, "Ne");
    app.handle_key(special(Key::Tab));
    assert_eq!(app.form_field, FormField::Description);
    app.handle_key(key('a'));
    app.handle_key(special(Key::Enter));
    app.handle_key(key('b'));
    assert_eq!(app.form_description, "a\nb");
    app.handle_key(special(Key::Down));
    assert_eq!(app.form_field, FormField::Description);
    app.handle_key(ctrl('n'));
    assert_eq!(app.form_field, FormField::Priority);
    app.handle_key(special(Key::Right));
    assert_eq!(app.form_priority, Priority::Low);
    app.handle_key(key('2'));
    assert_eq!(app.form_priority, Priority::High);
    app.handle_key(special(Key::Tab));
    for c in "one two".chars() {
        app.handle_key(key(c));
    }
    app.handle_key(ctrl('w'));
    assert_eq!(app.form_tags, "one ");
    app.handle_key(special(Key::Enter));
    assert_eq!(app.mode, AppMode::Normal);
    assert_eq!(app.items.len(), 4);
    assert_eq!(app.items[3].title, "Ne");
    assert_eq!(app.items[3].description, "a\nb");
    assert_eq!(app.items[3].priority, Priority::High);
    assert_eq!(app.items[3].tags, vec!["one".to_string()]);
}

#[test]
fn form_escape_discards() {
    let mut app = sample();
    app.handle_key(key('e'));
    assert_eq!(app.mode, AppMode::Editing);
    app.handle_key(ctrl('u'));
    assert_eq!(app.form_title, "");
    app.handle_key(special(Key::Esc));
    assert_eq!(app.mode, AppMode::Normal);
    assert_eq!(app.items[0].title, "alpha");
}

#[test]
fn help_screen_opens_and_closes() {
    let mut app = sample();
    app.handle_key(key('?'));
    assert_eq!(app.mode, AppMode::Help);
    app.handle_key(key('j'));
    assert_eq!(app.mode, AppMode::Help);
    app.handle_key(key('q'));
    assert_eq!(app.mode, AppMode::Normal);
}

#[test]
fn navigator_keys_pick_sections() {
    let mut app = sample();
    app.handle_key(special(Key::BackTab));
    assert_eq!(app.focus_pane, FocusPane::Nav);
    app.handle_key(key('2'));
    assert_eq!(app.nav_index, 1);
    assert_eq!(app.status_message.as_deref(), Some("View: Todo Queue"));
    app.handle_key(special(Key::Enter));
    assert_eq!(app.focus_pane, FocusPane::Main);
}

#[test]
fn board_keys_move_cards() {
    let mut app = sample();
    app.handle_key(key('v'));
    assert_eq!(app.view_mode, ViewMode::Kanban);
    app.handle_key(key('L'));
    assert_eq!(app.items[0].status, Status::InProgress);
    assert_eq!(app.kanban_col, 1);
    app.handle_key(key('h'));
    assert_eq!(app.kanban_col, 0);
    app.handle_key(key(' '));
    assert_eq!(app.items[1].status, Status::InProgress);
}

#[test]
fn tab_cycles_the_panes() {
    let mut app = sample();
    assert_eq!(app.focus_pane, FocusPane::Main);
    app.handle_key(special(Key::Tab));
    assert_eq!(app.focus_pane, FocusPane::Inspector);
    app.handle_key(special(Key::Tab));
    assert_eq!(app.focus_pane, FocusPane::Nav);
    app.handle_key(ctrl('w'));
    assert_eq!(app.focus_pane, FocusPane::Main);
}

#[test]
fn stale_rows_after_tag_cycle_break_the_move_round_trip() {
    let titles = ["a", "b", "c", "d"];
    let mut app = App::new(titles.iter().map(|t| Item::new(t.to_string(), Vec::new())).collect());
    app.handle_key(key('/'));
    app.handle_key(key('c'));
    app.handle_key(special(Key::Enter));
    assert_eq!(app.get_filtered_indices(), &[2]);
    // No task has a tag: `t` clears the filter but leaves the rows as they were.
    app.handle_key(key('t'));
    assert_eq!(app.tag_filter, None);
    assert_eq!(app.get_filtered_indices(), &[2]);
    app.handle_key(key('J'));
    app.handle_key(key('K'));
    let order: Vec<&str> = app.items.iter().map(|it| it.title.as_str()).collect();
    assert_eq!(order, vec!["b", "a", "d", "c"]);
}
