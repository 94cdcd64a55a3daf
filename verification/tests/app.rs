use hopes::app::{App, AppMode, FocusPane, FormField, NavSection, SortMode, ViewMode};
use hopes::models::{Item, Priority, Status};

fn create_test_app() -> App {
    let mut app = App::new(Vec::new());
    app.items = vec![
        Item::new(
            "Write compiler backend".to_string(),
            vec!["rust".to_string(), "core".to_string()],
        ),
        Item::new(
            "Design responsive TUI".to_string(),
            vec!["ui".to_string(), "tui".to_string()],
        ),
        Item::new(
            "Implement undo buffer".to_string(),
            vec!["rust".to_string(), "feature".to_string()],
        ),
    ];
    app.items[0].priority = Priority::Urgent;
    app.items[1].priority = Priority::High;
    app.items[2].priority = Priority::Medium;
    app.refresh_cache();
    app.selected = Some(0);
    app
}

fn titles(app: &App) -> Vec<&str> {
    app.items.iter().map(|i| i.title.as_str()).collect()
}

#[test]
fn test_navigation_vim_motions() {
    let mut app = create_test_app();
    assert_eq!(app.selected, Some(0));

    app.select_next();
    assert_eq!(app.selected, Some(1));

    app.jump_to_bottom();
    assert_eq!(app.selected, Some(2));

    app.select_next();
    assert_eq!(app.selected, Some(0));

    app.select_prev();
    assert_eq!(app.selected, Some(2));

    app.jump_to_top();
    assert_eq!(app.selected, Some(0));
}

#[test]
fn test_status_toggle() {
    let mut app = create_test_app();
    assert_eq!(app.items[0].status, Status::Todo);

    app.toggle_status();
    assert_eq!(app.items[0].status, Status::InProgress);

    app.toggle_status();
    assert_eq!(app.items[0].status, Status::Complete);

    app.toggle_status();
    assert_eq!(app.items[0].status, Status::Todo);
}

#[test]
fn test_priority_operations() {
    let mut app = create_test_app();
    assert_eq!(app.items[0].priority, Priority::Urgent);

    app.cycle_priority_forward();
    assert_eq!(app.items[0].priority, Priority::High);

    app.set_priority(Priority::Low);
    assert_eq!(app.items[0].priority, Priority::Low);
}

#[test]
fn test_reorder_tasks() {
    let mut app = create_test_app();
    assert_eq!(app.items[0].title, "Write compiler backend");

    app.move_selected_down();
    assert_eq!(app.items[0].title, "Design responsive TUI");
    assert_eq!(app.items[1].title, "Write compiler backend");

    app.move_selected_up();
    assert_eq!(app.items[0].title, "Write compiler backend");
}

#[test]
fn test_delete_and_undo() {
    let mut app = create_test_app();
    let count_before = app.items.len();

    app.delete_selected();
    assert_eq!(app.items.len(), count_before - 1);
    assert_eq!(app.items[0].title, "Design responsive TUI");

    app.undo_delete();
    assert_eq!(app.items.len(), count_before);
    assert_eq!(app.items[0].title, "Write compiler backend");
}

#[test]
fn test_filtering_and_stats() {
    let mut app = create_test_app();
    let stats = app.stats();
    assert_eq!(stats.total, 3);
    assert_eq!(stats.todo, 3);
    assert_eq!(stats.urgent, 1);
    assert_eq!(stats.high, 1);

    app.tag_filter = Some("#rust".to_string());
    app.refresh_cache();
    let filtered = app.get_filtered_indices();
    assert_eq!(filtered.len(), 2);

    app.tag_filter = Some("responsive".to_string());
    app.refresh_cache();
    let filtered2 = app.get_filtered_indices();
    assert_eq!(filtered2.len(), 1);
}

#[test]
fn test_view_mode_and_kanban() {
    let mut app = create_test_app();
    assert_eq!(app.view_mode, ViewMode::Table);

    app.toggle_view_mode();
    assert_eq!(app.view_mode, ViewMode::Kanban);

    app.kanban_right();
    assert_eq!(app.kanban_col, 1);

    app.kanban_left();
    assert_eq!(app.kanban_col, 0);
}

#[test]
fn new_workspace_selects_first_task() {
    let app = App::new(vec![Item::new("a".to_string(), Vec::new())]);
    assert_eq!(app.selected, Some(0));
    assert_eq!(app.mode, AppMode::Normal);
    assert_eq!(app.focus_pane, FocusPane::Main);
    assert_eq!(app.get_filtered_indices(), &[0]);
    let empty = App::new(Vec::new());
    assert_eq!(empty.selected, None);
    assert_eq!(empty.stats().total, 0);
    assert_eq!(empty.stats().percent, 0);
}

#[test]
fn delete_then_undo_restores_list_and_selection() {
    let mut app = create_test_app();
    app.selected = Some(1);
    let before = titles(&app).iter().map(|s| s.to_string()).collect::<Vec<_>>();
    app.delete_selected();
    assert_eq!(titles(&app), vec!["Write compiler backend", "Implement undo buffer"]);
    assert_eq!(app.status_message.as_deref(), Some("Deleted \"Design responsive TUI\" (press 'u' to undo)"));
    assert!(app.last_deleted.is_some());
    app.undo_delete();
    assert_eq!(titles(&app), before);
    assert_eq!(app.selected, Some(1));
    assert!(app.last_deleted.is_none());
    assert_eq!(app.status_message.as_deref(), Some("Restored \"Design responsive TUI\""));
    app.undo_delete();
    assert_eq!(app.status_message.as_deref(), Some("Nothing to undo"));
}

#[test]
fn deleting_last_row_moves_selection_up() {
    let mut app = create_test_app();
    app.selected = Some(2);
    app.delete_selected();
    assert_eq!(app.selected, Some(1));
    app.delete_selected();
    app.delete_selected();
    assert!(app.items.is_empty());
    assert_eq!(app.selected, None);
}

#[test]
fn long_titles_are_cut_in_messages() {
    let mut app = App::new(vec![Item::new(
        "A very long task title that goes on and on".to_string(),
        Vec::new(),
    )]);
    app.delete_selected();
    assert_eq!(
        app.status_message.as_deref(),
        Some("Deleted \"A very long task title that ...\" (press 'u' to undo)")
    );
}

#[test]
fn move_down_then_up_restores_order() {
    let mut app = create_test_app();
    app.selected = Some(1);
    app.move_selected_down();
    assert_eq!(titles(&app), vec!["Write compiler backend", "Implement undo buffer", "Design responsive TUI"]);
    assert_eq!(app.selected, Some(2));
    assert_eq!(app.status_message.as_deref(), Some("Moved task down"));
    app.move_selected_down();
    assert_eq!(app.status_message.as_deref(), Some("Moved task down"));
    app.move_selected_up();
    assert_eq!(titles(&app), vec!["Write compiler backend", "Design responsive TUI", "Implement undo buffer"]);
    assert_eq!(app.selected, Some(1));
}

#[test]
fn toggling_three_times_restores_status() {
    let mut app = create_test_app();
    for _ in 0..3 {
        app.toggle_status();
    }
    assert_eq!(app.items[0].status, Status::Todo);
    assert_eq!(app.status_message.as_deref(), Some("Status changed to TODO"));
}

#[test]
fn priority_wraps_both_ways() {
    let mut app = create_test_app();
    app.cycle_priority_backward();
    assert_eq!(app.items[0].priority, Priority::Low);
    app.cycle_priority_forward();
    assert_eq!(app.items[0].priority, Priority::Urgent);
    assert_eq!(app.status_message.as_deref(), Some("Priority set to URGENT"));
}

#[test]
fn nothing_selected_changes_nothing() {
    let mut app = create_test_app();
    app.selected = None;
    app.toggle_status();
    app.set_priority(Priority::Low);
    app.delete_selected();
    assert_eq!(app.items.len(), 3);
    assert_eq!(app.items[0].status, Status::Todo);
    assert_eq!(app.items[0].priority, Priority::Urgent);
    assert!(app.status_message.is_none());
}

#[test]
fn kanban_moves_shift_status_and_column() {
    let mut app = create_test_app();
    app.toggle_view_mode();
    assert_eq!(app.get_selected_real_index(), Some(0));
    app.kanban_move_task_right();
    assert_eq!(app.items[0].status, Status::InProgress);
    assert_eq!(app.kanban_col, 1);
    assert_eq!(app.status_message.as_deref(), Some("Shifted task to IN PROGRESS"));
    assert_eq!(app.get_kanban_column_indices(Status::InProgress), &[0]);
    assert_eq!(app.get_kanban_column_indices(Status::Todo), &[1, 2]);
    app.kanban_move_task_left();
    assert_eq!(app.items[0].status, Status::Todo);
    assert_eq!(app.kanban_col, 0);
    app.kanban_move_task_left();
    assert_eq!(app.items[0].status, Status::Complete);
    assert_eq!(app.kanban_col, 0);
}

#[test]
fn kanban_cursor_wraps_in_column() {
    let mut app = create_test_app();
    app.toggle_view_mode();
    app.kanban_next();
    assert_eq!(app.kanban_cursor, [1, 0, 0]);
    app.kanban_next();
    app.kanban_next();
    assert_eq!(app.kanban_cursor, [0, 0, 0]);
    app.kanban_prev();
    assert_eq!(app.kanban_cursor, [2, 0, 0]);
    app.jump_to_top();
    assert_eq!(app.kanban_cursor, [0, 0, 0]);
    app.jump_to_bottom();
    assert_eq!(app.kanban_cursor, [2, 0, 0]);
    app.kanban_right();
    app.kanban_next();
    assert_eq!(app.kanban_cursor, [2, 0, 0]);
    app.kanban_left();
    app.kanban_left();
    assert_eq!(app.kanban_col, 2);
    app.kanban_right();
    assert_eq!(app.kanban_col, 0);
}

#[test]
fn paging_stops_at_the_ends() {
    let mut app = create_test_app();
    app.page_down(10);
    assert_eq!(app.selected, Some(2));
    app.page_up(1);
    assert_eq!(app.selected, Some(1));
    app.page_up(5);
    assert_eq!(app.selected, Some(0));
    app.selected = None;
    app.page_down(2);
    assert_eq!(app.selected, Some(0));
    app.page_down(usize::MAX);
    assert_eq!(app.selected, Some(2));
}

#[test]
fn inspector_scroll_saturates() {
    let mut app = create_test_app();
    app.next_pane();
    assert_eq!(app.focus_pane, FocusPane::Inspector);
    app.select_prev();
    assert_eq!(app.inspector_scroll, 0);
    app.select_next();
    app.select_next();
    assert_eq!(app.inspector_scroll, 2);
    app.inspector_scroll = u16::MAX;
    app.select_next();
    assert_eq!(app.inspector_scroll, u16::MAX);
    app.next_pane();
    assert_eq!(app.focus_pane, FocusPane::Nav);
    app.prev_pane();
    assert_eq!(app.focus_pane, FocusPane::Inspector);
}

#[test]
fn navigator_selects_sections_and_tags() {
    let mut app = create_test_app();
    app.prev_pane();
    assert_eq!(app.focus_pane, FocusPane::Nav);
    app.select_next();
    assert_eq!(app.nav_section, NavSection::Todo);
    assert_eq!(app.status_message.as_deref(), Some("View: Todo Queue"));
    assert_eq!(app.get_filtered_indices().len(), 3);
    app.nav_index = 4;
    app.select_next();
    assert_eq!(app.nav_index, 5);
    assert_eq!(app.nav_section, NavSection::All);
    assert_eq!(app.tag_filter.as_deref(), Some("#rust"));
    assert_eq!(app.status_message.as_deref(), Some("Filtered by tag #rust"));
    assert_eq!(app.get_filtered_indices(), &[0, 2]);
    app.nav_index = 0;
    app.select_prev();
    assert_eq!(app.nav_index, 5 + app.all_tags_with_counts().len() - 1);
    assert_eq!(app.selected, Some(0));
}

#[test]
fn tag_table_is_sorted_by_count_then_name() {
    let app = create_test_app();
    let tags: Vec<(&str, usize)> = app.all_tags_with_counts().iter().map(|(t, c)| (t.as_str(), *c)).collect();
    assert_eq!(tags, vec![("rust", 2), ("core", 1), ("feature", 1), ("tui", 1), ("ui", 1)]);
}

#[test]
fn tag_filter_cycles_through_tags() {
    let mut app = create_test_app();
    app.cycle_tag_filter();
    assert_eq!(app.tag_filter.as_deref(), Some("#rust"));
    assert_eq!(app.status_message.as_deref(), Some("Filter: #rust"));
    app.cycle_tag_filter();
    assert_eq!(app.tag_filter.as_deref(), Some("#core"));
    for _ in 0..3 {
        app.cycle_tag_filter();
    }
    assert_eq!(app.tag_filter.as_deref(), Some("#ui"));
    app.cycle_tag_filter();
    assert_eq!(app.tag_filter, None);
    assert_eq!(app.status_message.as_deref(), Some("Filter cleared"));
    app.tag_filter = Some("unknown".to_string());
    app.cycle_tag_filter();
    assert_eq!(app.tag_filter.as_deref(), Some("#rust"));
    let mut empty = App::new(Vec::new());
    empty.tag_filter = Some("x".to_string());
    empty.cycle_tag_filter();
    assert_eq!(empty.tag_filter, None);
    assert_eq!(empty.status_message.as_deref(), Some("No tags available to filter"));
}

#[test]
fn clear_filter_resets_view() {
    let mut app = create_test_app();
    app.clear_filter();
    assert!(app.status_message.is_none());
    app.tag_filter = Some("#ui".to_string());
    app.nav_section = NavSection::Urgent;
    app.nav_index = 4;
    app.refresh_cache();
    assert_eq!(app.get_filtered_indices().len(), 0);
    app.clear_filter();
    assert_eq!(app.tag_filter, None);
    assert_eq!(app.nav_section, NavSection::All);
    assert_eq!(app.nav_index, 0);
    assert_eq!(app.get_filtered_indices().len(), 3);
    assert_eq!(app.status_message.as_deref(), Some("Filter reset to All Tasks"));
}

#[test]
fn sort_modes_order_the_table() {
    let mut app = create_test_app();
    app.items[0].status = Status::Complete;
    app.refresh_cache();
    app.cycle_sort();
    assert_eq!(app.sort_mode, SortMode::Priority);
    assert_eq!(app.get_filtered_indices(), &[0, 1, 2]);
    assert_eq!(app.status_message.as_deref(), Some("Sort: PRIORITY"));
    app.cycle_sort();
    assert_eq!(app.sort_mode, SortMode::Status);
    assert_eq!(app.get_filtered_indices(), &[1, 2, 0]);
    app.cycle_sort();
    assert_eq!(app.sort_mode, SortMode::Title);
    assert_eq!(app.get_filtered_indices(), &[1, 2, 0]);
    app.cycle_sort();
    assert_eq!(app.sort_mode, SortMode::Natural);
    assert_eq!(app.get_filtered_indices(), &[0, 1, 2]);
}

#[test]
fn stats_count_statuses_and_percent() {
    let mut app = create_test_app();
    app.items[0].status = Status::Complete;
    app.items[1].status = Status::InProgress;
    app.refresh_cache();
    let stats = app.stats();
    assert_eq!(stats.complete, 1);
    assert_eq!(stats.in_progress, 1);
    assert_eq!(stats.todo, 1);
    assert_eq!(stats.percent, 33);
    assert_eq!(stats.medium, 1);
    assert_eq!(stats.low, 0);
}

#[test]
fn create_form_adds_a_task() {
    let mut app = create_test_app();
    app.open_create_modal();
    assert_eq!(app.mode, AppMode::Creating);
    assert_eq!(app.form_field, FormField::Title);
    app.form_title = "  New task  ".to_string();
    app.form_description = " notes ".to_string();
    app.form_tags = "a, ,b ,".to_string();
    app.form_priority = Priority::High;
    app.commit_form();
    assert_eq!(app.mode, AppMode::Normal);
    assert_eq!(app.items.len(), 4);
    let it = &app.items[3];
    assert_eq!(it.title, "New task");
    assert_eq!(it.description, "notes");
    assert_eq!(it.tags, vec!["a".to_string(), "b".to_string()]);
    assert_eq!(it.priority, Priority::High);
    assert_eq!(it.status, Status::Todo);
    assert_eq!(app.selected, Some(3));
    assert_eq!(app.status_message.as_deref(), Some("Task created"));
}

#[test]
fn blank_title_keeps_the_form_open() {
    let mut app = create_test_app();
    app.open_create_modal();
    app.form_title = "   ".to_string();
    app.commit_form();
    assert_eq!(app.mode, AppMode::Creating);
    assert_eq!(app.items.len(), 3);
}

#[test]
fn board_creation_takes_the_column_status() {
    let mut app = create_test_app();
    app.toggle_view_mode();
    app.kanban_right();
    app.kanban_right();
    app.open_create_modal();
    app.form_title = "Done already".to_string();
    app.commit_form();
    assert_eq!(app.items[3].status, Status::Complete);
}

#[test]
fn edit_form_replaces_the_task() {
    let mut app = create_test_app();
    app.items[0].status = Status::InProgress;
    app.refresh_cache();
    app.open_edit_modal();
    assert_eq!(app.mode, AppMode::Editing);
    assert_eq!(app.form_title, "Write compiler backend");
    assert_eq!(app.form_tags, "rust, core");
    assert_eq!(app.form_edit_idx, Some(0));
    app.form_title = "Write backend".to_string();
    app.form_tags = "rust".to_string();
    app.commit_form();
    assert_eq!(app.items[0].title, "Write backend");
    assert_eq!(app.items[0].tags, vec!["rust".to_string()]);
    assert_eq!(app.items[0].status, Status::InProgress);
    assert_eq!(app.form_edit_idx, None);
    assert_eq!(app.mode, AppMode::Normal);
    assert_eq!(app.status_message.as_deref(), Some("Task updated"));
}

#[test]
fn delete_word_back_removes_last_word_and_spaces() {
    let mut s = "hello big world  ".to_string();
    App::delete_word_back(&mut s);
    assert_eq!(s, "hello big ");
    App::delete_word_back(&mut s);
    assert_eq!(s, "hello ");
    let mut t = "   ".to_string();
    App::delete_word_back(&mut t);
    assert_eq!(t, "");
}

#[test]
fn status_message_expires_after_four_seconds() {
    let mut app = create_test_app();
    assert_eq!(app.get_status_message(0), None);
    let serial = app.status_serial;
    app.set_status_message("hi".to_string());
    assert_eq!(app.status_serial, serial + 1);
    assert_eq!(app.get_status_message(3999), Some("hi"));
    assert_eq!(app.get_status_message(4000), None);
}

#[test]
fn selected_item_follows_table_row() {
    let mut app = create_test_app();
    app.selected = Some(2);
    assert_eq!(app.get_selected_item().map(|i| i.title.as_str()), Some("Implement undo buffer"));
    app.selected = Some(7);
    assert!(app.get_selected_item().is_none());
}

#[test]
fn editing_without_changes_keeps_the_task() {
    let mut app = create_test_app();
    app.items[0].description = "first line\nsecond".to_string();
    app.refresh_cache();
    let before = app.items.clone();
    app.open_edit_modal();
    app.commit_form();
    assert_eq!(app.items, before);
    assert_eq!(app.mode, AppMode::Normal);
}

#[test]
fn counts_add_up_to_the_total() {
    let mut app = create_test_app();
    app.items[1].status = Status::Complete;
    app.items[2].priority = Priority::Low;
    app.refresh_cache();
    let s = app.stats();
    assert_eq!(s.todo + s.in_progress + s.complete, s.total);
    assert_eq!(s.urgent + s.high + s.medium + s.low, s.total);
}

#[test]
fn refreshed_rows_name_tasks() {
    let mut app = create_test_app();
    for sort in 0..4 {
        for row in 0..3 {
            app.selected = Some(row);
            let real = app.get_selected_real_index().unwrap();
            assert!(real < app.items.len());
        }
        app.cycle_sort();
        let _ = sort;
    }
}
