//! What each key does: the key map of the normal mode, and the keys of the
//! task form, the search field and the help screen.
use vstd::prelude::*;
use crate::app::{App, AppMode, AppView, FocusPane, FormField, ViewMode, cycle_sort_post,
    form_field_of_rank, form_field_rank, next_pane_spec, prev_pane_spec, refreshed, selected_real, toggle_view_spec, wf};
use crate::cache::within_limits;
use crate::chars::{from_chars, push_char, slice_chars, to_chars, trim, trim_chars};
use crate::editing::{delete_post, move_down_post, move_up_post, priority_set_post, shifted_post, snippet_ok,
    stepped_priority, toggle_status_post, undo_ok, undo_post};
use crate::forms::{clear_filter_post, commit_post, committed_items, create_modal_spec, cycle_tag_post,
    edit_modal_post, strip_spaces_end, strip_word_end};
use crate::navigation::{bottom_post, kanban_left_spec, kanban_right_spec, nav_applied,
    page_down_spec, page_up_spec, select_next_post, select_prev_post, top_post};
use crate::models::priority::{Priority, priority_of_rank, priority_rank};

verus! {

/// A key as the workspace sees it.
#[derive(Clone, Copy, Debug, PartialEq, Eq, Structural)]
pub enum Key {
    Char(char),
    Enter,
    Esc,
    Tab,
    BackTab,
    Backspace,
    Up,
    Down,
    Left,
    Right,
    Home,
    End,
    PageUp,
    PageDown,
    F5,
    Other,
}

/// A key press: the key, and whether Control was held.
#[derive(Clone, Copy, Debug, PartialEq, Eq, Structural)]
pub struct KeyPress {
    pub code: Key,
    pub ctrl: bool,
}

/// What a key does in the normal mode.
#[derive(Clone, Copy, Debug, PartialEq, Eq, Structural)]
pub enum Command {
    Quit,
    NextPane,
    PrevPane,
    ToggleView,
    CycleSort,
    Down,
    Up,
    Left,
    Right,
    ShiftLeft,
    ShiftRight,
    /// `g`: the first half of `gg`, or the second.
    PendingG,
    Top,
    Bottom,
    PageDown,
    PageUp,
    MoveDown,
    MoveUp,
    Create,
    Edit,
    Confirm,
    Space,
    PriorityForward,
    PriorityBackward,
    /// A digit in the navigator: that entry.
    NavEntry(usize),
    /// A digit elsewhere: that priority.
    SetPriority(Priority),
    /// `d`: the first half of `dd`, or the second.
    PendingD,
    Delete,
    Undo,
    Search,
    CycleTag,
    ClearFilter,
    Help,
    /// Push and pull now instead of waiting for the debounce.
    ForceSync,
    Nothing,
}

/// What the front end does after a key.
#[derive(Clone, Copy, Debug, PartialEq, Eq, Structural)]
pub enum KeyAction {
    Continue,
    Quit,
    /// Ask the sync worker to sync now.
    ForceSync,
}

/// `c` lies between `lo` and `hi`.
pub open spec fn char_between(c: char, lo: char, hi: char) -> bool {
    lo as u32 <= c as u32 && c as u32 <= hi as u32
}

/// The digit's distance from '1'.
pub open spec fn digit_offset(c: char) -> int {
    c as u32 - '1' as u32
}

/// The key map of the normal mode. Earlier rules win: `Ctrl-c` quits
/// before `c` edits, `Ctrl-d`/`Ctrl-u` page before `d`/`u` delete or undo,
/// `H`/`L` move cards on the board and jump elsewhere, digits pick a
/// navigator entry in the navigator and a priority elsewhere. `Tab` and
/// `Ctrl-w` switch to the next pane. `S` and `F5` ask for a sync.
pub open spec fn normal_command_spec(k: KeyPress, view: ViewMode, focus: FocusPane) -> Command {
    let board = view == ViewMode::Kanban;
    match k.code {
        Key::Char(c) => if c == 'q' || (c == 'c' && k.ctrl) {
            Command::Quit
        } else if c == 'w' && k.ctrl {
            Command::NextPane
        } else if c == 'v' {
            Command::ToggleView
        } else if c == 's' {
            Command::CycleSort
        } else if c == 'j' {
            Command::Down
        } else if c == 'k' {
            Command::Up
        } else if c == 'h' {
            Command::Left
        } else if c == 'l' {
            Command::Right
        } else if c == 'H' && board {
            Command::ShiftLeft
        } else if c == 'L' && board {
            Command::ShiftRight
        } else if c == 'g' {
            Command::PendingG
        } else if c == 'G' || c == 'L' {
            Command::Bottom
        } else if c == 'H' {
            Command::Top
        } else if c == 'd' && k.ctrl {
            Command::PageDown
        } else if c == 'u' && k.ctrl {
            Command::PageUp
        } else if c == 'J' {
            Command::MoveDown
        } else if c == 'K' {
            Command::MoveUp
        } else if c == 'a' || c == 'o' || c == 'i' {
            Command::Create
        } else if c == 'e' || c == 'c' {
            Command::Edit
        } else if c == ' ' {
            Command::Space
        } else if c == 'p' {
            Command::PriorityForward
        } else if c == 'P' {
            Command::PriorityBackward
        } else if char_between(c, '1', '5') && focus == FocusPane::Nav {
            Command::NavEntry(digit_offset(c) as usize)
        } else if char_between(c, '1', '4') {
            Command::SetPriority(priority_of_rank(digit_offset(c)))
        } else if c == 'd' {
            Command::PendingD
        } else if c == 'x' {
            Command::Delete
        } else if c == 'u' {
            Command::Undo
        } else if c == '/' {
            Command::Search
        } else if c == 't' {
            Command::CycleTag
        } else if c == '?' {
            Command::Help
        } else if c == 'S' {
            Command::ForceSync
        } else {
            Command::Nothing
        },
        Key::F5 => Command::ForceSync,
        Key::Tab => Command::NextPane,
        Key::BackTab => Command::PrevPane,
        Key::Down => Command::Down,
        Key::Up => Command::Up,
        Key::Left => Command::Left,
        Key::Right => Command::Right,
        Key::End => Command::Bottom,
        Key::Home => Command::Top,
        Key::PageDown => Command::PageDown,
        Key::PageUp => Command::PageUp,
        Key::Enter => Command::Confirm,
        Key::Esc => Command::ClearFilter,
        _ => Command::Nothing,
    }
}

/// `v` with no half-typed `gg` or `dd`.
pub open spec fn cleared(v: AppView) -> AppView {
    AppView { pending_g: false, pending_d: false, ..v }
}

/// Deleting the selected task can run: its title can be cut for the message.
pub open spec fn delete_ok(v: AppView) -> bool {
    selected_real(v) matches Some(r) ==> snippet_ok(v.items[r as int].title)
}

/// A command can run: a deletion needs `delete_ok`, an undo `undo_ok`.
pub open spec fn command_ok(v: AppView, cmd: Command) -> bool {
    match cmd {
        Command::Delete => delete_ok(v),
        Command::PendingD => v.pending_d ==> delete_ok(v),
        Command::Undo => undo_ok(v),
        _ => true,
    }
}

/// The commands that change tasks.
pub open spec fn is_task_command(cmd: Command) -> bool {
    ||| cmd is ShiftLeft
    ||| cmd is ShiftRight
    ||| cmd is MoveDown
    ||| cmd is MoveUp
    ||| cmd is Space
    ||| cmd is PriorityForward
    ||| cmd is PriorityBackward
    ||| cmd is SetPriority
    ||| cmd is Delete
    ||| cmd is Undo
}

/// The effect of a command that changes tasks.
pub open spec fn task_command_post(v: AppView, cmd: Command, post: AppView) -> bool {
    match cmd {
        Command::ShiftLeft => shifted_post(v, post, 2),
        Command::ShiftRight => shifted_post(v, post, 1),
        Command::MoveDown => move_down_post(v, post),
        Command::MoveUp => move_up_post(v, post),
        Command::Space => if v.focus_pane == FocusPane::Nav {
            nav_applied(v, post)
        } else if v.view_mode == ViewMode::Kanban {
            shifted_post(v, post, 1)
        } else {
            toggle_status_post(v, post)
        },
        Command::PriorityForward => priority_set_post(v, post, stepped_priority(v, 1)),
        Command::PriorityBackward => priority_set_post(v, post, stepped_priority(v, 3)),
        Command::SetPriority(p) => priority_set_post(v, post, p),
        Command::Delete => delete_post(v, post),
        Command::Undo => undo_post(v, post),
        _ => post == v,
    }
}

/// The effect of a command that moves around or changes the view.
pub open spec fn view_command_post(v: AppView, cmd: Command, post: AppView) -> bool {
    match cmd {
        Command::NextPane => post == next_pane_spec(v),
        Command::PrevPane => post == prev_pane_spec(v),
        Command::ToggleView => post == toggle_view_spec(v),
        Command::CycleSort => cycle_sort_post(v, post),
        Command::Down => select_next_post(v, post),
        Command::Up => select_prev_post(v, post),
        Command::Left => post == if v.view_mode == ViewMode::Kanban {
            kanban_left_spec(v)
        } else {
            prev_pane_spec(v)
        },
        Command::Right => post == if v.view_mode == ViewMode::Kanban {
            kanban_right_spec(v)
        } else {
            next_pane_spec(v)
        },
        Command::Top => post == top_post(v),
        Command::Bottom => post == bottom_post(v),
        Command::PageDown => post == page_down_spec(v, 5),
        Command::PageUp => post == page_up_spec(v, 5),
        Command::Create => post == create_modal_spec(v),
        Command::Edit => edit_modal_post(v, post),
        Command::Confirm => if v.focus_pane == FocusPane::Nav {
            exists|m: AppView| #[trigger] nav_applied(v, m) && post == AppView { focus_pane: FocusPane::Main, ..m }
        } else {
            edit_modal_post(v, post)
        },
        Command::NavEntry(i) => if i < 5 {
            nav_applied(AppView { nav_index: i, ..v }, post)
        } else {
            post == v
        },
        Command::Search => post == AppView {
            filter_input: match v.tag_filter {
                Some(f) => f,
                None => Seq::empty(),
            },
            mode: AppMode::Filtering,
            ..v
        },
        Command::CycleTag => cycle_tag_post(v, post),
        Command::ClearFilter => clear_filter_post(v, post),
        Command::Help => post == AppView { mode: AppMode::Help, ..v },
        _ => post == v,
    }
}

/// The effect of a normal-mode command. `q` quits; `g` and `d` complete or
/// start `gg` (to the top) and `dd` (delete); every other command first
/// forgets a half-typed `gg` or `dd`.
pub open spec fn command_post(pre: AppView, cmd: Command, post: AppView) -> bool {
    let v = cleared(pre);
    match cmd {
        Command::Quit => post == pre,
        Command::PendingG => if pre.pending_g {
            post == top_post(v)
        } else {
            post == AppView { pending_g: true, ..v }
        },
        Command::PendingD => if pre.pending_d {
            delete_post(v, post)
        } else {
            post == AppView { pending_d: true, ..v }
        },
        _ => if is_task_command(cmd) {
            task_command_post(v, cmd, post)
        } else {
            view_command_post(v, cmd, post)
        },
    }
}

/// `s` without its last character.
pub open spec fn pop_last(s: Seq<char>) -> Seq<char> {
    if s.len() > 0 {
        s.drop_last()
    } else {
        s
    }
}

/// A text field after a key: `Ctrl-w` deletes the last word, `Ctrl-u`
/// clears, another character is typed, `Enter` types a newline in a
/// multi-line field, `Backspace` deletes the last character.
pub open spec fn typed(s: Seq<char>, k: KeyPress, multiline: bool) -> Seq<char> {
    match k.code {
        Key::Char(c) => if c == 'w' && k.ctrl {
            strip_word_end(strip_spaces_end(s))
        } else if c == 'u' && k.ctrl {
            Seq::empty()
        } else {
            s.push(c)
        },
        Key::Enter => if multiline {
            s.push('\n')
        } else {
            s
        },
        Key::Backspace => pop_last(s),
        _ => s,
    }
}

/// The key closes the form without saving.
pub open spec fn form_closes(k: KeyPress) -> bool {
    k.code == Key::Esc || (k.ctrl && k.code == Key::Char('c'))
}

/// The key saves the form.
pub open spec fn form_commits(v: AppView, k: KeyPress) -> bool {
    (k.code == Key::Enter && v.form_field != FormField::Description) || (k.ctrl && k.code == Key::Char('s'))
}

/// The key moves to the next form field.
pub open spec fn form_next_field(v: AppView, k: KeyPress) -> bool {
    ||| k.ctrl && (k.code == Key::Char('j') || k.code == Key::Char('n'))
    ||| k.code == Key::Tab
    ||| k.code == Key::Down && v.form_field != FormField::Description
}

/// The key moves to the previous form field.
pub open spec fn form_prev_field(v: AppView, k: KeyPress) -> bool {
    ||| k.ctrl && (k.code == Key::Char('k') || k.code == Key::Char('p'))
    ||| k.code == Key::BackTab
    ||| k.code == Key::Up && v.form_field != FormField::Description
}

/// The priority field after a key: space, `l`, `p` or Right lower it, `h`,
/// `P` or Left raise it, a digit from 1 to 4 picks it.
pub open spec fn priority_key_spec(p: Priority, k: KeyPress) -> Priority {
    match k.code {
        Key::Char(c) => if c == ' ' || c == 'l' || c == 'p' {
            priority_of_rank(priority_rank(p) + 1)
        } else if c == 'h' || c == 'P' {
            priority_of_rank(priority_rank(p) + 3)
        } else if char_between(c, '1', '4') {
            priority_of_rank(digit_offset(c))
        } else {
            p
        },
        Key::Right => priority_of_rank(priority_rank(p) + 1),
        Key::Left => priority_of_rank(priority_rank(p) + 3),
        _ => p,
    }
}

/// The effect of a key in the form.
pub open spec fn form_key_post(pre: AppView, k: KeyPress, post: AppView) -> bool {
    if form_closes(k) {
        post == AppView { mode: AppMode::Normal, ..pre }
    } else if form_commits(pre, k) {
        commit_post(pre, post)
    } else if form_next_field(pre, k) {
        post == AppView { form_field: form_field_of_rank(form_field_rank(pre.form_field) + 1), ..pre }
    } else if form_prev_field(pre, k) {
        post == AppView { form_field: form_field_of_rank(form_field_rank(pre.form_field) + 3), ..pre }
    } else {
        match pre.form_field {
            FormField::Title => post == AppView { form_title: typed(pre.form_title, k, false), ..pre },
            FormField::Description => post == AppView {
                form_description: typed(pre.form_description, k, true),
                ..pre
            },
            FormField::Priority => post == AppView { form_priority: priority_key_spec(pre.form_priority, k), ..pre },
            FormField::Tags => post == AppView { form_tags: typed(pre.form_tags, k, false), ..pre },
        }
    }
}

/// The effect of a key in the search field: `Enter` applies the trimmed
/// query (none when blank), refreshes and selects the first row; `Esc`
/// leaves; typing and deleting edit the query and select the first row.
pub open spec fn filter_key_post(pre: AppView, k: KeyPress, post: AppView) -> bool {
    match k.code {
        Key::Enter => {
            let q = trim(pre.filter_input);
            refreshed(
                AppView {
                    tag_filter: if q.len() == 0 {
                        None
                    } else {
                        Some(q)
                    },
                    selected: Some(0),
                    mode: AppMode::Normal,
                    ..pre
                },
                post,
            )
        },
        Key::Esc => post == AppView { mode: AppMode::Normal, ..pre },
        Key::Char(c) => if k.ctrl && (c == 'w' || c == 'u') {
            post == AppView { filter_input: typed(pre.filter_input, k, false), ..pre }
        } else {
            post == AppView { filter_input: pre.filter_input.push(c), selected: Some(0), ..pre }
        },
        Key::Backspace => post == AppView { filter_input: pop_last(pre.filter_input), selected: Some(0), ..pre },
        _ => post == pre,
    }
}

/// The effect of a key on the help screen: `Esc`, `?`, `q`, `Enter` or
/// space close it.
pub open spec fn help_key_post(pre: AppView, k: KeyPress, post: AppView) -> bool {
    if k.code == Key::Esc || k.code == Key::Char('?') || k.code == Key::Char('q') || k.code == Key::Enter
        || k.code == Key::Char(' ') {
        post == AppView { mode: AppMode::Normal, ..pre }
    } else {
        post == pre
    }
}

/// The effect of a key in the current mode.
pub open spec fn key_post(pre: AppView, k: KeyPress, post: AppView) -> bool {
    match pre.mode {
        AppMode::Normal => command_post(pre, normal_command_spec(k, pre.view_mode, pre.focus_pane), post),
        AppMode::Creating | AppMode::Editing => form_key_post(pre, k, post),
        AppMode::Filtering => filter_key_post(pre, k, post),
        AppMode::Help => help_key_post(pre, k, post),
    }
}

/// What the front end does after the key: quit on `Quit`, sync on
/// `ForceSync` (both in the normal mode only), else go on.
pub open spec fn key_action(pre: AppView, k: KeyPress) -> KeyAction {
    if pre.mode == AppMode::Normal {
        command_action(normal_command_spec(k, pre.view_mode, pre.focus_pane))
    } else {
        KeyAction::Continue
    }
}

/// What the front end does after a command.
pub open spec fn command_action(cmd: Command) -> KeyAction {
    match cmd {
        Command::Quit => KeyAction::Quit,
        Command::ForceSync => KeyAction::ForceSync,
        _ => KeyAction::Continue,
    }
}

/// The key can be handled: in the normal mode its command can run; a key
/// that saves the form needs the saved list within limits.
pub open spec fn key_ok(pre: AppView, k: KeyPress) -> bool {
    match pre.mode {
        AppMode::Normal => command_ok(pre, normal_command_spec(k, pre.view_mode, pre.focus_pane)),
        AppMode::Creating | AppMode::Editing => (!form_closes(k) && form_commits(pre, k)) ==> within_limits(
            committed_items(pre),
        ),
        _ => true,
    }
}

/// The normal-mode command of a key (see `normal_command_spec`).
pub fn normal_command(k: KeyPress, view: ViewMode, focus: FocusPane) -> (r: Command)
    ensures
        r == normal_command_spec(k, view, focus),
{
    let board = view == ViewMode::Kanban;
    match k.code {
        Key::Char(c) => {
            if c == 'q' || (c == 'c' && k.ctrl) {
                Command::Quit
            } else if c == 'w' && k.ctrl {
                Command::NextPane
            } else if c == 'v' {
                Command::ToggleView
            } else if c == 's' {
                Command::CycleSort
            } else if c == 'j' {
                Command::Down
            } else if c == 'k' {
                Command::Up
            } else if c == 'h' {
                Command::Left
            } else if c == 'l' {
                Command::Right
            } else if c == 'H' && board {
                Command::ShiftLeft
            } else if c == 'L' && board {
                Command::ShiftRight
            } else if c == 'g' {
                Command::PendingG
            } else if c == 'G' || c == 'L' {
                Command::Bottom
            } else if c == 'H' {
                Command::Top
            } else if c == 'd' && k.ctrl {
                Command::PageDown
            } else if c == 'u' && k.ctrl {
                Command::PageUp
            } else if c == 'J' {
                Command::MoveDown
            } else if c == 'K' {
                Command::MoveUp
            } else if c == 'a' || c == 'o' || c == 'i' {
                Command::Create
            } else if c == 'e' || c == 'c' {
                Command::Edit
            } else if c == ' ' {
                Command::Space
            } else if c == 'p' {
                Command::PriorityForward
            } else if c == 'P' {
                Command::PriorityBackward
            } else if '1' as u32 <= c as u32 && c as u32 <= '5' as u32 && focus == FocusPane::Nav {
                Command::NavEntry((c as u32 - '1' as u32) as usize)
            } else if '1' as u32 <= c as u32 && c as u32 <= '4' as u32 {
                match Priority::from_digit(c) {
                    Some(p) => Command::SetPriority(p),
                    None => Command::Nothing,
                }
            } else if c == 'd' {
                Command::PendingD
            } else if c == 'x' {
                Command::Delete
            } else if c == 'u' {
                Command::Undo
            } else if c == '/' {
                Command::Search
            } else if c == 't' {
                Command::CycleTag
            } else if c == '?' {
                Command::Help
            } else if c == 'S' {
                Command::ForceSync
            } else {
                Command::Nothing
            }
        },
        Key::F5 => Command::ForceSync,
        Key::Tab => Command::NextPane,
        Key::BackTab => Command::PrevPane,
        Key::Down => Command::Down,
        Key::Up => Command::Up,
        Key::Left => Command::Left,
        Key::Right => Command::Right,
        Key::End => Command::Bottom,
        Key::Home => Command::Top,
        Key::PageDown => Command::PageDown,
        Key::PageUp => Command::PageUp,
        Key::Enter => Command::Confirm,
        Key::Esc => Command::ClearFilter,
        _ => Command::Nothing,
    }
}

/// Whether a command changes tasks (see `is_task_command`).
fn is_task(cmd: Command) -> (b: bool)
    ensures
        b == is_task_command(cmd),
{
    match cmd {
        Command::ShiftLeft | Command::ShiftRight | Command::MoveDown | Command::MoveUp | Command::Space
        | Command::PriorityForward | Command::PriorityBackward | Command::SetPriority(_) | Command::Delete
        | Command::Undo => true,
        _ => false,
    }
}

/// Deletes the last character of `s`.
fn pop_char(s: &mut String)
    ensures
        final(s)@ == pop_last(old(s)@),
{
    let c = to_chars(s.as_str());
    if c.len() > 0 {
        let kept = slice_chars(&c, 0, c.len() - 1);
        assert(kept@ == c@.drop_last());
        *s = from_chars(kept.as_slice());
    }
}

/// Applies a key to a text field (see `typed`).
fn type_key(s: &mut String, k: KeyPress, multiline: bool)
    ensures
        final(s)@ == typed(old(s)@, k, multiline),
{
    match k.code {
        Key::Char(c) => {
            if c == 'w' && k.ctrl {
                App::delete_word_back(s);
            } else if c == 'u' && k.ctrl {
                *s = String::new();
            } else {
                push_char(s, c);
            }
        },
        Key::Enter => {
            if multiline {
                push_char(s, '\n');
            }
        },
        Key::Backspace => pop_char(s),
        _ => {},
    }
}

/// The priority field after a key (see `priority_key_spec`).
fn priority_key(p: Priority, k: KeyPress) -> (r: Priority)
    ensures
        r == priority_key_spec(p, k),
{
    match k.code {
        Key::Char(c) => {
            if c == ' ' || c == 'l' || c == 'p' {
                p.next()
            } else if c == 'h' || c == 'P' {
                p.prev()
            } else {
                match Priority::from_digit(c) {
                    Some(d) => d,
                    None => p,
                }
            }
        },
        Key::Right => p.next(),
        Key::Left => p.prev(),
        _ => p,
    }
}

impl App {
    /// Runs a command that changes tasks.
    fn run_task_command(&mut self, cmd: Command)
        requires
            wf(old(self)@),
            command_ok(old(self)@, cmd),
        ensures
            wf(final(self)@),
            task_command_post(old(self)@, cmd, final(self)@),
    {
        proof {
            crate::app::lemma_in_range_selection(self@);
        }
        match cmd {
            Command::ShiftLeft => self.kanban_move_task_left(),
            Command::ShiftRight => self.kanban_move_task_right(),
            Command::MoveDown => self.move_selected_down(),
            Command::MoveUp => self.move_selected_up(),
            Command::Space => {
                if self.focus_pane == FocusPane::Nav {
                    self.apply_nav_selection();
                } else if self.view_mode == ViewMode::Kanban {
                    self.kanban_move_task_right();
                } else {
                    self.toggle_status();
                }
            },
            Command::PriorityForward => self.cycle_priority_forward(),
            Command::PriorityBackward => self.cycle_priority_backward(),
            Command::SetPriority(p) => self.set_priority(p),
            Command::Delete => self.delete_selected(),
            Command::Undo => self.undo_delete(),
            _ => {},
        }
    }

    /// Runs a command that moves around or changes the view.
    fn run_view_command(&mut self, cmd: Command)
        requires
            wf(old(self)@),
        ensures
            wf(final(self)@),
            view_command_post(old(self)@, cmd, final(self)@),
    {
        let ghost pre = self@;
        match cmd {
            Command::NextPane => self.next_pane(),
            Command::PrevPane => self.prev_pane(),
            Command::ToggleView => self.toggle_view_mode(),
            Command::CycleSort => self.cycle_sort(),
            Command::Down => self.select_next(),
            Command::Up => self.select_prev(),
            Command::Left => {
                if self.view_mode == ViewMode::Kanban {
                    self.kanban_left();
                } else {
                    self.prev_pane();
                }
            },
            Command::Right => {
                if self.view_mode == ViewMode::Kanban {
                    self.kanban_right();
                } else {
                    self.next_pane();
                }
            },
            Command::Top => self.jump_to_top(),
            Command::Bottom => self.jump_to_bottom(),
            Command::PageDown => self.page_down(5),
            Command::PageUp => self.page_up(5),
            Command::Create => self.open_create_modal(),
            Command::Edit => {
                proof {
                    crate::app::lemma_in_range_selection(self@);
                }
                self.open_edit_modal();
            },
            Command::Confirm => {
                if self.focus_pane == FocusPane::Nav {
                    self.apply_nav_selection();
                    let ghost m = self@;
                    self.focus_pane = FocusPane::Main;
                    assert(self@ == AppView { focus_pane: FocusPane::Main, ..m });
                    proof {
                        crate::app::lemma_wf_kept(m, self@);
                    }
                } else {
                    proof {
                        crate::app::lemma_in_range_selection(self@);
                    }
                    self.open_edit_modal();
                }
            },
            Command::NavEntry(i) => {
                if i < 5 {
                    self.nav_index = i;
                    self.apply_nav_selection();
                }
            },
            Command::Search => {
                self.filter_input = match &self.tag_filter {
                    Some(f) => f.clone(),
                    None => String::new(),
                };
                self.mode = AppMode::Filtering;
            },
            Command::CycleTag => self.cycle_tag_filter(),
            Command::ClearFilter => self.clear_filter(),
            Command::Help => {
                self.mode = AppMode::Help;
            },
            _ => {},
        }
        proof {
            if cmd is Confirm {
                if pre.focus_pane != FocusPane::Nav {
                    crate::app::lemma_wf_kept(pre, self@);
                }
            } else if cmd is NavEntry {
                if cmd->NavEntry_0 >= 5 {
                    crate::app::lemma_wf_kept(pre, self@);
                }
            } else if !(cmd is CycleSort || cmd is Down || cmd is Up || cmd is CycleTag || cmd is ClearFilter) {
                crate::app::lemma_wf_kept(pre, self@);
            }
        }
    }

    /// Runs a normal-mode command (see `command_post`). Returns what the
    /// front end does next.
    pub fn run_command(&mut self, cmd: Command) -> (r: KeyAction)
        requires
            wf(old(self)@),
            command_ok(old(self)@, cmd),
        ensures
            wf(final(self)@),
            command_post(old(self)@, cmd, final(self)@),
            r == command_action(cmd),
    {
        if cmd == Command::Quit {
            return KeyAction::Quit;
        }
        if cmd == Command::PendingG {
            self.pending_d = false;
            if self.pending_g {
                self.pending_g = false;
                self.jump_to_top();
            } else {
                self.pending_g = true;
            }
            return KeyAction::Continue;
        }
        if cmd == Command::PendingD {
            self.pending_g = false;
            if self.pending_d {
                self.pending_d = false;
                proof {
                    crate::app::lemma_in_range_selection(self@);
                }
                self.delete_selected();
            } else {
                self.pending_d = true;
            }
            return KeyAction::Continue;
        }
        self.pending_g = false;
        self.pending_d = false;
        assert(self@ == cleared(old(self)@));
        if is_task(cmd) {
            self.run_task_command(cmd);
        } else {
            self.run_view_command(cmd);
        }
        if cmd == Command::ForceSync {
            KeyAction::ForceSync
        } else {
            KeyAction::Continue
        }
    }

    /// Handles a key in the task form (see `form_key_post`).
    fn form_key(&mut self, k: KeyPress)
        requires
            wf(old(self)@),
            (!form_closes(k) && form_commits(old(self)@, k)) ==> within_limits(committed_items(old(self)@)),
        ensures
            wf(final(self)@),
            form_key_post(old(self)@, k, final(self)@),
    {
        if k.code == Key::Esc || (k.ctrl && k.code == Key::Char('c')) {
            self.mode = AppMode::Normal;
            return ;
        }
        if (k.code == Key::Enter && self.form_field != FormField::Description) || (k.ctrl && k.code == Key::Char(
            's',
        )) {
            self.commit_form();
            return ;
        }
        if (k.ctrl && (k.code == Key::Char('j') || k.code == Key::Char('n'))) || k.code == Key::Tab || (k.code
            == Key::Down && self.form_field != FormField::Description) {
            self.form_field = self.form_field.next();
            return ;
        }
        if (k.ctrl && (k.code == Key::Char('k') || k.code == Key::Char('p'))) || k.code == Key::BackTab || (
        k.code == Key::Up && self.form_field != FormField::Description) {
            self.form_field = self.form_field.prev();
            return ;
        }
        match self.form_field {
            FormField::Title => {
                let mut t = String::new();
                std::mem::swap(&mut t, &mut self.form_title);
                type_key(&mut t, k, false);
                self.form_title = t;
            },
            FormField::Description => {
                let mut t = String::new();
                std::mem::swap(&mut t, &mut self.form_description);
                type_key(&mut t, k, true);
                self.form_description = t;
            },
            FormField::Priority => {
                self.form_priority = priority_key(self.form_priority, k);
            },
            FormField::Tags => {
                let mut t = String::new();
                std::mem::swap(&mut t, &mut self.form_tags);
                type_key(&mut t, k, false);
                self.form_tags = t;
            },
        }
    }

    /// Handles a key in the search field (see `filter_key_post`).
    fn filter_key(&mut self, k: KeyPress)
        requires
            wf(old(self)@),
        ensures
            wf(final(self)@),
            filter_key_post(old(self)@, k, final(self)@),
    {
        match k.code {
            Key::Enter => {
                let c = to_chars(self.filter_input.as_str());
                let q = trim_chars(&c);
                if q.len() == 0 {
                    self.tag_filter = None;
                } else {
                    self.tag_filter = Some(from_chars(q.as_slice()));
                }
                self.selected = Some(0);
                self.mode = AppMode::Normal;
                self.refresh_cache();
            },
            Key::Esc => {
                self.mode = AppMode::Normal;
            },
            Key::Char(ch) => {
                let mut t = String::new();
                std::mem::swap(&mut t, &mut self.filter_input);
                if k.ctrl && (ch == 'w' || ch == 'u') {
                    type_key(&mut t, k, false);
                    self.filter_input = t;
                } else {
                    push_char(&mut t, ch);
                    self.filter_input = t;
                    self.selected = Some(0);
                }
            },
            Key::Backspace => {
                let mut t = String::new();
                std::mem::swap(&mut t, &mut self.filter_input);
                pop_char(&mut t);
                self.filter_input = t;
                self.selected = Some(0);
            },
            _ => {},
        }
    }

    /// Handles a key on the help screen (see `help_key_post`).
    fn help_key(&mut self, k: KeyPress)
        ensures
            help_key_post(old(self)@, k, final(self)@),
    {
        if k.code == Key::Esc || k.code == Key::Char('?') || k.code == Key::Char('q') || k.code == Key::Enter
            || k.code == Key::Char(' ') {
            self.mode = AppMode::Normal;
        }
    }

    /// Handles one key press in the current mode (see `key_post`). Returns
    /// what the front end does next.
    pub fn handle_key(&mut self, k: KeyPress) -> (r: KeyAction)
        requires
            wf(old(self)@),
            key_ok(old(self)@, k),
        ensures
            wf(final(self)@),
            key_post(old(self)@, k, final(self)@),
            r == key_action(old(self)@, k),
    {
        match self.mode {
            AppMode::Normal => {
                let cmd = normal_command(k, self.view_mode, self.focus_pane);
                self.run_command(cmd)
            },
            AppMode::Creating | AppMode::Editing => {
                self.form_key(k);
                KeyAction::Continue
            },
            AppMode::Filtering => {
                self.filter_key(k);
                KeyAction::Continue
            },
            AppMode::Help => {
                self.help_key(k);
                KeyAction::Continue
            },
        }
    }
}

// ---------------------------------------------------------------------------
// The documented bindings.
// ---------------------------------------------------------------------------

/// A key pressed without Control.
pub open spec fn plain(code: Key) -> KeyPress {
    KeyPress { code, ctrl: false }
}

/// A character key pressed with Control.
pub open spec fn with_ctrl(c: char) -> KeyPress {
    KeyPress { code: Key::Char(c), ctrl: true }
}

/// The normal-mode bindings of the key reference hold in every view and
/// every pane: motion, pane switching, jumps and pages, task management,
/// search, help, sync and quitting.
pub proof fn law_documented_bindings(view: ViewMode, focus: FocusPane)
    ensures
        normal_command_spec(plain(Key::Char('j')), view, focus) == Command::Down,
        normal_command_spec(plain(Key::Down), view, focus) == Command::Down,
        normal_command_spec(plain(Key::Char('k')), view, focus) == Command::Up,
        normal_command_spec(plain(Key::Up), view, focus) == Command::Up,
        normal_command_spec(plain(Key::Tab), view, focus) == Command::NextPane,
        normal_command_spec(with_ctrl('w'), view, focus) == Command::NextPane,
        normal_command_spec(plain(Key::BackTab), view, focus) == Command::PrevPane,
        normal_command_spec(plain(Key::Char('g')), view, focus) == Command::PendingG,
        normal_command_spec(plain(Key::Home), view, focus) == Command::Top,
        normal_command_spec(plain(Key::Char('G')), view, focus) == Command::Bottom,
        normal_command_spec(plain(Key::End), view, focus) == Command::Bottom,
        normal_command_spec(with_ctrl('d'), view, focus) == Command::PageDown,
        normal_command_spec(plain(Key::PageDown), view, focus) == Command::PageDown,
        normal_command_spec(with_ctrl('u'), view, focus) == Command::PageUp,
        normal_command_spec(plain(Key::PageUp), view, focus) == Command::PageUp,
        normal_command_spec(plain(Key::Char(' ')), view, focus) == Command::Space,
        normal_command_spec(plain(Key::Char('a')), view, focus) == Command::Create,
        normal_command_spec(plain(Key::Char('o')), view, focus) == Command::Create,
        normal_command_spec(plain(Key::Char('i')), view, focus) == Command::Create,
        normal_command_spec(plain(Key::Char('e')), view, focus) == Command::Edit,
        normal_command_spec(plain(Key::Char('c')), view, focus) == Command::Edit,
        normal_command_spec(plain(Key::Char('d')), view, focus) == Command::PendingD,
        normal_command_spec(plain(Key::Char('x')), view, focus) == Command::Delete,
        normal_command_spec(plain(Key::Char('u')), view, focus) == Command::Undo,
        normal_command_spec(plain(Key::Char('J')), view, focus) == Command::MoveDown,
        normal_command_spec(plain(Key::Char('K')), view, focus) == Command::MoveUp,
        normal_command_spec(plain(Key::Char('p')), view, focus) == Command::PriorityForward,
        normal_command_spec(plain(Key::Char('P')), view, focus) == Command::PriorityBackward,
        normal_command_spec(plain(Key::Char('v')), view, focus) == Command::ToggleView,
        normal_command_spec(plain(Key::Char('s')), view, focus) == Command::CycleSort,
        normal_command_spec(plain(Key::Char('h')), view, focus) == Command::Left,
        normal_command_spec(plain(Key::Left), view, focus) == Command::Left,
        normal_command_spec(plain(Key::Char('l')), view, focus) == Command::Right,
        normal_command_spec(plain(Key::Right), view, focus) == Command::Right,
        normal_command_spec(plain(Key::Char('/')), view, focus) == Command::Search,
        normal_command_spec(plain(Key::Char('t')), view, focus) == Command::CycleTag,
        normal_command_spec(plain(Key::Esc), view, focus) == Command::ClearFilter,
        normal_command_spec(plain(Key::Char('?')), view, focus) == Command::Help,
        normal_command_spec(plain(Key::Char('q')), view, focus) == Command::Quit,
        normal_command_spec(with_ctrl('c'), view, focus) == Command::Quit,
        normal_command_spec(plain(Key::Char('S')), view, focus) == Command::ForceSync,
        normal_command_spec(plain(Key::F5), view, focus) == Command::ForceSync,
        normal_command_spec(plain(Key::Enter), view, focus) == Command::Confirm,
{
}

/// On the board `H` and `L` shift the selected card one column left and
/// right.
pub proof fn law_board_shift_bindings(focus: FocusPane)
    ensures
        normal_command_spec(plain(Key::Char('H')), ViewMode::Kanban, focus) == Command::ShiftLeft,
        normal_command_spec(plain(Key::Char('L')), ViewMode::Kanban, focus) == Command::ShiftRight,
{
}

/// The digits: `1`..`5` pick the navigator entries in the navigator pane;
/// elsewhere `1`..`4` set the priorities Urgent, High, Medium, Low.
pub proof fn law_digit_bindings(view: ViewMode, focus: FocusPane)
    ensures
        focus == FocusPane::Nav ==> {
            &&& normal_command_spec(plain(Key::Char('1')), view, focus) == Command::NavEntry(0)
            &&& normal_command_spec(plain(Key::Char('2')), view, focus) == Command::NavEntry(1)
            &&& normal_command_spec(plain(Key::Char('3')), view, focus) == Command::NavEntry(2)
            &&& normal_command_spec(plain(Key::Char('4')), view, focus) == Command::NavEntry(3)
            &&& normal_command_spec(plain(Key::Char('5')), view, focus) == Command::NavEntry(4)
        },
        focus != FocusPane::Nav ==> {
            &&& normal_command_spec(plain(Key::Char('1')), view, focus) == Command::SetPriority(Priority::Urgent)
            &&& normal_command_spec(plain(Key::Char('2')), view, focus) == Command::SetPriority(Priority::High)
            &&& normal_command_spec(plain(Key::Char('3')), view, focus) == Command::SetPriority(Priority::Medium)
            &&& normal_command_spec(plain(Key::Char('4')), view, focus) == Command::SetPriority(Priority::Low)
        },
{
}

} // verus!
