//! The workspace state: the task list, the current view (section, filter,
//! sort, table or board), the selection, the create/edit form and the undo
//! slot, with the caches the views read.
use vstd::prelude::*;
use crate::cache::{CacheView, ViewCache, cache_matches, lemma_status_indices_in_range, status_indices, within_limits};
use crate::chars::push_str;
use crate::filter::{filter_view, lemma_visible_increasing, visible_indices};
use crate::models::item::{Item, ItemView, items_view};
use crate::models::priority::Priority;
use crate::models::status::{Status, status_of_rank, status_rank};

verus! {

/// The fields of the create/edit form.
#[derive(PartialEq, Eq, Clone, Copy, Debug, Structural)]
pub enum FormField {
    Title,
    Description,
    Priority,
    Tags,
}

/// The position of a form field in tab order.
pub open spec fn form_field_rank(f: FormField) -> int {
    match f {
        FormField::Title => 0,
        FormField::Description => 1,
        FormField::Priority => 2,
        FormField::Tags => 3,
    }
}

/// The form field at a tab position (taken modulo 4).
pub open spec fn form_field_of_rank(r: int) -> FormField {
    let k = r % 4;
    if k == 0 {
        FormField::Title
    } else if k == 1 {
        FormField::Description
    } else if k == 2 {
        FormField::Priority
    } else {
        FormField::Tags
    }
}

impl FormField {
    /// The next field in tab order, wrapping around.
    pub fn next(&self) -> (r: Self)
        ensures
            r == form_field_of_rank(form_field_rank(*self) + 1),
    {
        match self {
            Self::Title => Self::Description,
            Self::Description => Self::Priority,
            Self::Priority => Self::Tags,
            Self::Tags => Self::Title,
        }
    }

    /// The previous field in tab order, wrapping around.
    pub fn prev(&self) -> (r: Self)
        ensures
            r == form_field_of_rank(form_field_rank(*self) + 3),
    {
        match self {
            Self::Title => Self::Tags,
            Self::Description => Self::Title,
            Self::Priority => Self::Description,
            Self::Tags => Self::Priority,
        }
    }
}

/// What the keyboard currently drives.
#[derive(PartialEq, Eq, Clone, Copy, Debug, Structural)]
pub enum AppMode {
    Normal,
    Creating,
    Editing,
    Filtering,
    Help,
}

/// How the task list is laid out.
#[derive(PartialEq, Eq, Clone, Copy, Debug, Structural)]
pub enum ViewMode {
    Table,
    Kanban,
}

/// The focused pane.
#[derive(PartialEq, Eq, Clone, Copy, Debug, Structural)]
pub enum FocusPane {
    Nav,
    Main,
    Inspector,
}

/// The position of a pane, left to right.
pub open spec fn pane_rank(p: FocusPane) -> int {
    match p {
        FocusPane::Nav => 0,
        FocusPane::Main => 1,
        FocusPane::Inspector => 2,
    }
}

/// The pane at a position (taken modulo 3).
pub open spec fn pane_of_rank(r: int) -> FocusPane {
    let k = r % 3;
    if k == 0 {
        FocusPane::Nav
    } else if k == 1 {
        FocusPane::Main
    } else {
        FocusPane::Inspector
    }
}

impl FocusPane {
    /// The pane to the right, wrapping around.
    pub fn next(&self) -> (r: Self)
        ensures
            r == pane_of_rank(pane_rank(*self) + 1),
    {
        match self {
            Self::Nav => Self::Main,
            Self::Main => Self::Inspector,
            Self::Inspector => Self::Nav,
        }
    }

    /// The pane to the left, wrapping around.
    pub fn prev(&self) -> (r: Self)
        ensures
            r == pane_of_rank(pane_rank(*self) + 2),
    {
        match self {
            Self::Nav => Self::Inspector,
            Self::Main => Self::Nav,
            Self::Inspector => Self::Main,
        }
    }
}

/// The order of the table.
#[derive(PartialEq, Eq, Clone, Copy, Debug, Structural)]
pub enum SortMode {
    Natural,
    Priority,
    Status,
    Title,
}

/// The position of a sort mode in the cycle.
pub open spec fn sort_rank(m: SortMode) -> int {
    match m {
        SortMode::Natural => 0,
        SortMode::Priority => 1,
        SortMode::Status => 2,
        SortMode::Title => 3,
    }
}

/// The sort mode at a cycle position (taken modulo 4).
pub open spec fn sort_of_rank(r: int) -> SortMode {
    let k = r % 4;
    if k == 0 {
        SortMode::Natural
    } else if k == 1 {
        SortMode::Priority
    } else if k == 2 {
        SortMode::Status
    } else {
        SortMode::Title
    }
}

/// The text shown for a sort mode.
pub open spec fn sort_label(m: SortMode) -> Seq<char> {
    match m {
        SortMode::Natural => "NATURAL"@,
        SortMode::Priority => "PRIORITY"@,
        SortMode::Status => "STATUS"@,
        SortMode::Title => "TITLE"@,
    }
}

impl SortMode {
    /// The next sort mode in the cycle.
    pub fn next(&self) -> (r: Self)
        ensures
            r == sort_of_rank(sort_rank(*self) + 1),
    {
        match self {
            Self::Natural => Self::Priority,
            Self::Priority => Self::Status,
            Self::Status => Self::Title,
            Self::Title => Self::Natural,
        }
    }

    /// The label.
    pub fn label(&self) -> (r: &'static str)
        ensures
            r@ == sort_label(*self),
    {
        match self {
            Self::Natural => "NATURAL",
            Self::Priority => "PRIORITY",
            Self::Status => "STATUS",
            Self::Title => "TITLE",
        }
    }
}

/// The fixed views of the navigator.
#[derive(PartialEq, Eq, Clone, Copy, Debug, Structural)]
pub enum NavSection {
    All,
    Todo,
    InProgress,
    Complete,
    Urgent,
}

/// The navigator section at a position (positions 0 to 4).
pub open spec fn nav_section_at(i: int) -> NavSection {
    if i == 0 {
        NavSection::All
    } else if i == 1 {
        NavSection::Todo
    } else if i == 2 {
        NavSection::InProgress
    } else if i == 3 {
        NavSection::Complete
    } else {
        NavSection::Urgent
    }
}

/// The text shown for a navigator section.
pub open spec fn nav_label(s: NavSection) -> Seq<char> {
    match s {
        NavSection::All => "All Tasks"@,
        NavSection::Todo => "Todo Queue"@,
        NavSection::InProgress => "In Progress"@,
        NavSection::Complete => "Completed"@,
        NavSection::Urgent => "Urgent Only"@,
    }
}

/// The number of fixed navigator sections.
pub const NAV_SECTIONS: usize = 5;

impl NavSection {
    /// All sections in navigator order.
    pub fn all() -> (r: [NavSection; 5])
        ensures
            forall|i: int| 0 <= i < 5 ==> #[trigger] r@[i] == nav_section_at(i),
    {
        [NavSection::All, NavSection::Todo, NavSection::InProgress, NavSection::Complete, NavSection::Urgent]
    }

    /// The label.
    pub fn label(&self) -> (r: &'static str)
        ensures
            r@ == nav_label(*self),
    {
        match self {
            Self::All => "All Tasks",
            Self::Todo => "Todo Queue",
            Self::InProgress => "In Progress",
            Self::Complete => "Completed",
            Self::Urgent => "Urgent Only",
        }
    }
}

/// Counts over the whole task list.
#[derive(Clone, Copy, Default)]
pub struct WorkspaceStats {
    pub total: usize,
    pub todo: usize,
    pub in_progress: usize,
    pub complete: usize,
    pub percent: usize,
    pub urgent: usize,
    pub high: usize,
    pub medium: usize,
    pub low: usize,
}

/// Stepping back undoes stepping forward, for panes and form fields.
pub proof fn law_pane_and_field_prev_undo_next(p: FocusPane, f: FormField)
    ensures
        pane_of_rank(pane_rank(pane_of_rank(pane_rank(p) + 1)) + 2) == p,
        pane_of_rank(pane_rank(pane_of_rank(pane_rank(p) + 2)) + 1) == p,
        form_field_of_rank(form_field_rank(form_field_of_rank(form_field_rank(f) + 1)) + 3) == f,
        form_field_of_rank(form_field_rank(form_field_of_rank(form_field_rank(f) + 3)) + 1) == f,
{
}

/// Switching the layout twice comes back to the same layout.
pub proof fn law_toggle_view_twice(v: AppView)
    ensures
        toggle_view_spec(toggle_view_spec(v)).view_mode == v.view_mode,
{
}

/// Cycling the sort four times comes back to the same order.
pub proof fn law_sort_cycle(m: SortMode)
    ensures
        sort_of_rank(sort_rank(sort_of_rank(sort_rank(sort_of_rank(sort_rank(sort_of_rank(
            sort_rank(m) + 1)) + 1)) + 1)) + 1) == m,
{
}

// ---------------------------------------------------------------------------
// The workspace.
// ---------------------------------------------------------------------------

/// The whole state of the workspace. `selected` is the table selection (a
/// row of the visible list); `status_serial` changes whenever a status
/// message is set, so a front end can time how long it has been shown.
pub struct App {
    pub items: Vec<Item>,
    pub selected: Option<usize>,
    pub mode: AppMode,
    pub view_mode: ViewMode,
    pub focus_pane: FocusPane,
    pub sort_mode: SortMode,
    pub nav_section: NavSection,
    pub nav_index: usize,
    pub kanban_col: usize,
    pub kanban_cursor: [usize; 3],
    pub form_field: FormField,
    pub form_title: String,
    pub form_description: String,
    pub form_priority: Priority,
    pub form_tags: String,
    pub form_edit_idx: Option<usize>,
    pub filter_input: String,
    pub tag_filter: Option<String>,
    pub inspector_scroll: u16,
    pub pending_g: bool,
    pub pending_d: bool,
    pub last_deleted: Option<(usize, Item)>,
    pub status_message: Option<String>,
    pub status_serial: u64,
    pub cache: ViewCache,
}

/// The workspace as plain values.
pub struct AppView {
    pub items: Seq<ItemView>,
    pub selected: Option<usize>,
    pub mode: AppMode,
    pub view_mode: ViewMode,
    pub focus_pane: FocusPane,
    pub sort_mode: SortMode,
    pub nav_section: NavSection,
    pub nav_index: usize,
    pub kanban_col: usize,
    pub kanban_cursor: Seq<usize>,
    pub form_field: FormField,
    pub form_title: Seq<char>,
    pub form_description: Seq<char>,
    pub form_priority: Priority,
    pub form_tags: Seq<char>,
    pub form_edit_idx: Option<usize>,
    pub filter_input: Seq<char>,
    pub tag_filter: Option<Seq<char>>,
    pub inspector_scroll: u16,
    pub pending_g: bool,
    pub pending_d: bool,
    pub last_deleted: Option<(usize, ItemView)>,
    pub status_message: Option<Seq<char>>,
    pub status_serial: u64,
    pub cache: CacheView,
}

/// The undo slot as plain values.
pub open spec fn deleted_view(d: Option<(usize, Item)>) -> Option<(usize, ItemView)> {
    match d {
        Some(p) => Some((p.0, p.1@)),
        None => None,
    }
}

/// The status message as plain values.
pub open spec fn message_view(m: Option<String>) -> Option<Seq<char>> {
    match m {
        Some(s) => Some(s@),
        None => None,
    }
}

impl View for App {
    type V = AppView;

    open spec fn view(&self) -> AppView {
        AppView {
            items: items_view(self.items@),
            selected: self.selected,
            mode: self.mode,
            view_mode: self.view_mode,
            focus_pane: self.focus_pane,
            sort_mode: self.sort_mode,
            nav_section: self.nav_section,
            nav_index: self.nav_index,
            kanban_col: self.kanban_col,
            kanban_cursor: self.kanban_cursor@,
            form_field: self.form_field,
            form_title: self.form_title@,
            form_description: self.form_description@,
            form_priority: self.form_priority,
            form_tags: self.form_tags@,
            form_edit_idx: self.form_edit_idx,
            filter_input: self.filter_input@,
            tag_filter: filter_view(self.tag_filter),
            inspector_scroll: self.inspector_scroll,
            pending_g: self.pending_g,
            pending_d: self.pending_d,
            last_deleted: deleted_view(self.last_deleted),
            status_message: message_view(self.status_message),
            status_serial: self.status_serial,
            cache: self.cache@,
        }
    }
}

/// The caches describe the current task list, section, filter and sort.
pub open spec fn fresh(v: AppView) -> bool {
    cache_matches(v.items, v.nav_section, v.tag_filter, v.sort_mode, v.cache)
}

/// The state every operation keeps: the board column is one of the three,
/// the navigator index can still be stepped, and the list and the tag table
/// are of a size the counts can hold.
pub open spec fn wf(v: AppView) -> bool {
    &&& v.kanban_col < 3
    &&& v.nav_index < usize::MAX
    &&& within_limits(v.items)
    &&& v.cache.tags.len() <= usize::MAX / 2
    &&& cache_in_range(v)
}

/// Every table row and every board card of the caches is a position of
/// the task list, and the table has a row count a `usize` can hold.
pub open spec fn cache_in_range(v: AppView) -> bool {
    &&& v.cache.filtered.len() <= usize::MAX
    &&& forall|k: int| 0 <= k < v.cache.filtered.len() ==> #[trigger] v.cache.filtered[k] < v.items.len()
    &&& v.cache.columns.len() == 3
    &&& forall|c: int, k: int|
        0 <= c < 3 && 0 <= k < v.cache.columns[c].len() ==> #[trigger] v.cache.columns[c][k] < v.items.len()
}

/// Fresh caches name only positions of the list.
pub proof fn lemma_fresh_in_range(v: AppView)
    requires
        fresh(v),
        v.items.len() <= usize::MAX,
        v.cache.filtered.len() <= usize::MAX,
    ensures
        cache_in_range(v),
{
    lemma_visible_increasing(v.items, v.nav_section, v.tag_filter);
    let vis = visible_indices(v.items, v.nav_section, v.tag_filter);
    assert forall|k: int| 0 <= k < v.cache.filtered.len() implies #[trigger] v.cache.filtered[k] < v.items.len() by {
        assert(vis.contains(v.cache.filtered[k]));
    }
    lemma_status_indices_in_range(v.items, Status::Todo);
    lemma_status_indices_in_range(v.items, Status::InProgress);
    lemma_status_indices_in_range(v.items, Status::Complete);
    assert forall|c: int, k: int| 0 <= c < 3 && 0 <= k < v.cache.columns[c].len() implies #[trigger] v.cache.columns[c][k]
        < v.items.len() by {
        assert(v.cache.columns[c] == status_indices(v.items, status_of_rank(c)));
    }
}

/// `wf` depends only on the list, the caches, the board column and the
/// navigator index.
pub proof fn lemma_wf_kept(a: AppView, b: AppView)
    requires
        wf(a),
        b.items == a.items,
        b.cache == a.cache,
        b.kanban_col < 3,
        b.nav_index == a.nav_index,
    ensures
        wf(b),
{
}

/// With the caches naming positions of the list, so does the selection.
pub proof fn lemma_in_range_selection(v: AppView)
    requires
        cache_in_range(v),
        v.kanban_col < 3,
    ensures
        selection_in_range(v),
{
    if v.view_mode == ViewMode::Kanban {
        let c = status_rank(kanban_status(v.kanban_col));
        let col = focused_column(v);
        if col.len() > 0 {
            let cur = v.kanban_cursor[v.kanban_col as int];
            let idx = if cur < col.len() - 1 {
                cur as int
            } else {
                col.len() - 1
            };
            assert(v.cache.columns[c][idx] < v.items.len());
        }
    } else if v.selected is Some && v.selected->0 < v.cache.filtered.len() {
        assert(v.cache.filtered[v.selected->0 as int] < v.items.len());
    }
}

/// The view after switching between the table and the board.
pub open spec fn toggle_view_spec(v: AppView) -> AppView {
    with_message(
        AppView { view_mode: toggled(v.view_mode), ..v },
        "Switched to "@ + view_mode_name(toggled(v.view_mode)) + " view"@,
    )
}

/// The effect of `cycle_sort`: the next sort order, the caches refreshed
/// and the order reported.
pub open spec fn cycle_sort_post(pre: AppView, post: AppView) -> bool {
    refreshed(
        with_message(AppView { sort_mode: pre.sort_mode.next_spec(), ..pre }, "Sort: "@ + sort_label(pre.sort_mode.next_spec())),
        post,
    )
}

/// The view with the pane to the right focused.
pub open spec fn next_pane_spec(v: AppView) -> AppView {
    AppView { focus_pane: pane_of_rank(pane_rank(v.focus_pane) + 1), ..v }
}

/// The view with the pane to the left focused.
pub open spec fn prev_pane_spec(v: AppView) -> AppView {
    AppView { focus_pane: pane_of_rank(pane_rank(v.focus_pane) + 2), ..v }
}

/// The status shown in board column `col` (columns past the second show
/// completed tasks).
pub open spec fn kanban_status(col: usize) -> Status {
    if col == 0 {
        Status::Todo
    } else if col == 1 {
        Status::InProgress
    } else {
        Status::Complete
    }
}

/// The board column currently focused.
pub open spec fn focused_column(v: AppView) -> Seq<usize> {
    v.cache.columns[status_rank(kanban_status(v.kanban_col))]
}

/// The list index of the selected task: on the board, the task under the
/// column cursor (clamped to the column); in the table, the visible task at
/// the selected row.
pub open spec fn selected_real(v: AppView) -> Option<usize> {
    if v.view_mode == ViewMode::Kanban {
        let col = focused_column(v);
        if col.len() == 0 {
            None
        } else {
            let c = v.kanban_cursor[v.kanban_col as int];
            let idx = if c < col.len() - 1 {
                c as int
            } else {
                col.len() - 1
            };
            Some(col[idx])
        }
    } else {
        match v.selected {
            Some(sel) => if sel < v.cache.filtered.len() {
                Some(v.cache.filtered[sel as int])
            } else {
                None
            },
            None => None,
        }
    }
}

/// The selected task, if any, is a task of the list.
pub open spec fn selection_in_range(v: AppView) -> bool {
    selected_real(v) matches Some(i) ==> i < v.items.len()
}

/// The serial after setting a status message.
pub open spec fn next_serial(s: u64) -> u64 {
    if s == u64::MAX {
        0
    } else {
        (s + 1) as u64
    }
}

/// `post` is `pre` with the status message set to `m`.
pub open spec fn with_message(pre: AppView, m: Seq<char>) -> AppView {
    AppView { status_message: Some(m), status_serial: next_serial(pre.status_serial), ..pre }
}

/// `post` is `pre` with its caches refreshed.
pub open spec fn refreshed(pre: AppView, post: AppView) -> bool {
    &&& post == AppView { cache: post.cache, ..pre }
    &&& fresh(post)
}

/// The name of a layout, as shown in messages.
pub open spec fn view_mode_name(m: ViewMode) -> Seq<char> {
    match m {
        ViewMode::Table => "Table Grid"@,
        ViewMode::Kanban => "Kanban Board"@,
    }
}

/// The other layout.
pub open spec fn toggled(m: ViewMode) -> ViewMode {
    match m {
        ViewMode::Table => ViewMode::Kanban,
        ViewMode::Kanban => ViewMode::Table,
    }
}

/// `a ++ b` as a new string.
pub(crate) fn concat2(a: &str, b: &str) -> (r: String)
    ensures
        r@ == a@ + b@,
{
    let mut s = String::new();
    push_str(&mut s, a);
    push_str(&mut s, b);
    assert(s@ =~= a@ + b@);
    s
}

/// `a ++ b ++ c` as a new string.
pub(crate) fn concat3(a: &str, b: &str, c: &str) -> (r: String)
    ensures
        r@ == a@ + b@ + c@,
{
    let mut s = String::new();
    push_str(&mut s, a);
    push_str(&mut s, b);
    push_str(&mut s, c);
    assert(s@ =~= a@ + b@ + c@);
    s
}

/// A copy of a string literal.
pub(crate) fn owned(a: &str) -> (r: String)
    ensures
        r@ == a@,
{
    let mut s = String::new();
    push_str(&mut s, a);
    assert(s@ =~= a@);
    s
}

impl App {
    /// A workspace over `items`, in the table layout with all tasks shown in
    /// list order and the first one selected.
    pub fn new(items: Vec<Item>) -> (r: Self)
        requires
            within_limits(items_view(items@)),
        ensures
            r@ == (AppView {
                items: items_view(items@),
                selected: if items@.len() > 0 { Some(0) } else { None },
                mode: AppMode::Normal,
                view_mode: ViewMode::Table,
                focus_pane: FocusPane::Main,
                sort_mode: SortMode::Natural,
                nav_section: NavSection::All,
                nav_index: 0,
                kanban_col: 0,
                kanban_cursor: seq![0usize, 0usize, 0usize],
                form_field: FormField::Title,
                form_title: Seq::empty(),
                form_description: Seq::empty(),
                form_priority: Priority::Medium,
                form_tags: Seq::empty(),
                form_edit_idx: None,
                filter_input: Seq::empty(),
                tag_filter: None,
                inspector_scroll: 0,
                pending_g: false,
                pending_d: false,
                last_deleted: None,
                status_message: None,
                status_serial: 0,
                cache: r@.cache,
            }),
            fresh(r@),
            wf(r@),
    {
        let selected = if items.len() > 0 {
            Some(0)
        } else {
            None
        };
        let mut app = App {
            items,
            selected,
            mode: AppMode::Normal,
            view_mode: ViewMode::Table,
            focus_pane: FocusPane::Main,
            sort_mode: SortMode::Natural,
            nav_section: NavSection::All,
            nav_index: 0,
            kanban_col: 0,
            kanban_cursor: [0, 0, 0],
            form_field: FormField::Title,
            form_title: String::new(),
            form_description: String::new(),
            form_priority: Priority::Medium,
            form_tags: String::new(),
            form_edit_idx: None,
            filter_input: String::new(),
            tag_filter: None,
            inspector_scroll: 0,
            pending_g: false,
            pending_d: false,
            last_deleted: None,
            status_message: None,
            status_serial: 0,
            cache: ViewCache::empty(),
        };
        app.refresh_cache();
        assert(app.kanban_cursor@ =~= seq![0usize, 0usize, 0usize]);
        app
    }

    /// Recomputes the caches from the task list and the view settings.
    pub fn refresh_cache(&mut self)
        requires
            within_limits(old(self)@.items),
        ensures
            refreshed(old(self)@, final(self)@),
            cache_in_range(final(self)@),
    {
        self.cache = ViewCache::compute(&self.items, self.nav_section, &self.tag_filter, self.sort_mode);
        proof {
            lemma_fresh_in_range(self@);
        }
    }

    /// Shows `msg` in the status line.
    pub fn set_status_message(&mut self, msg: String)
        ensures
            final(self)@ == with_message(old(self)@, msg@),
    {
        self.status_message = Some(msg);
        self.status_serial = if self.status_serial == u64::MAX {
            0
        } else {
            self.status_serial + 1
        };
    }

    /// The status message while it is fresh: for 4 seconds after it was set.
    pub fn get_status_message(&self, elapsed_ms: u64) -> (r: Option<&str>)
        ensures
            match r {
                Some(s) => self@.status_message == Some(s@) && elapsed_ms < 4000,
                None => self@.status_message.is_none() || elapsed_ms >= 4000,
            },
    {
        match &self.status_message {
            Some(m) => if elapsed_ms < 4000 {
                Some(m.as_str())
            } else {
                None
            },
            None => None,
        }
    }

    /// Switches between the table and the board.
    pub fn toggle_view_mode(&mut self)
        ensures
            final(self)@ == toggle_view_spec(old(self)@),
    {
        self.view_mode = match self.view_mode {
            ViewMode::Table => ViewMode::Kanban,
            ViewMode::Kanban => ViewMode::Table,
        };
        let name = match self.view_mode {
            ViewMode::Table => "Table Grid",
            ViewMode::Kanban => "Kanban Board",
        };
        let msg = concat3("Switched to ", name, " view");
        self.set_status_message(msg);
    }

    /// Moves to the next sort order.
    pub fn cycle_sort(&mut self)
        requires
            within_limits(old(self)@.items),
        ensures
            cycle_sort_post(old(self)@, final(self)@),
            wf(old(self)@) ==> wf(final(self)@),
    {
        self.sort_mode = self.sort_mode.next();
        self.refresh_cache();
        let msg = concat2("Sort: ", self.sort_mode.label());
        self.set_status_message(msg);
    }

    /// Focuses the pane to the right.
    pub fn next_pane(&mut self)
        ensures
            final(self)@ == next_pane_spec(old(self)@),
    {
        self.focus_pane = self.focus_pane.next();
    }

    /// Focuses the pane to the left.
    pub fn prev_pane(&mut self)
        ensures
            final(self)@ == prev_pane_spec(old(self)@),
    {
        self.focus_pane = self.focus_pane.prev();
    }

    /// The visible tasks in display order.
    pub fn get_filtered_indices(&self) -> (r: &[usize])
        ensures
            r@ == self@.cache.filtered,
    {
        self.cache.filtered()
    }
}

impl SortMode {
    /// `next` as a spec function.
    pub open spec fn next_spec(self) -> SortMode {
        sort_of_rank(sort_rank(self) + 1)
    }
}

} // verus!
