//! Moving around the workspace: the navigator, the table selection, the
//! board cursor, paging and the inspector scroll.
use vstd::prelude::*;
use crate::app::{App, AppView, FocusPane, NavSection, ViewMode, focused_column, nav_label,
    nav_section_at, refreshed, selected_real, wf, with_message, concat2};

use crate::chars::push_str;
use crate::models::item::Item;
use crate::models::status::{Status, status_rank};

verus! {

/// The number of navigator entries: the fixed sections, then one per tag.
pub open spec fn nav_total(v: AppView) -> int {
    5 + v.cache.tags.len() as int
}

/// The view settings the navigator entry `v.nav_index` selects, with its
/// status message: a fixed section clears the search filter, a tag entry
/// shows all tasks filtered by `#tag`. An index past the last entry changes
/// nothing.
pub open spec fn nav_target(v: AppView) -> AppView {
    if v.nav_index < 5 {
        let s = nav_section_at(v.nav_index as int);
        with_message(AppView { nav_section: s, tag_filter: None, ..v }, "View: "@ + nav_label(s))
    } else if v.nav_index - 5 < v.cache.tags.len() {
        let t = v.cache.tags[v.nav_index - 5].0;
        with_message(
            AppView { nav_section: NavSection::All, tag_filter: Some("#"@ + t), ..v },
            "Filtered by tag #"@ + t,
        )
    } else {
        v
    }
}

/// `post` is `pre` after applying its navigator entry: the entry's settings,
/// the caches refreshed and the first table row selected.
pub open spec fn nav_applied(pre: AppView, post: AppView) -> bool {
    refreshed(AppView { selected: Some(0), ..nav_target(pre) }, post)
}

/// The table row after stepping down `count` rows: the last row wraps to
/// the first, and with no selection the first row is taken.
pub open spec fn row_after_next(sel: Option<usize>, count: int) -> usize {
    match sel {
        Some(i) => if i >= count - 1 {
            0
        } else {
            (i + 1) as usize
        },
        None => 0,
    }
}

/// The table row after stepping up: the first row wraps to the last, and
/// with no selection the first row is taken.
pub open spec fn row_after_prev(sel: Option<usize>, count: int) -> usize {
    match sel {
        Some(i) => if i == 0 {
            (count - 1) as usize
        } else {
            (i - 1) as usize
        },
        None => 0,
    }
}

/// `v` with the cursor of the focused board column set to `c`.
pub open spec fn with_cursor(v: AppView, c: int) -> AppView {
    AppView { kanban_cursor: v.kanban_cursor.update(v.kanban_col as int, c as usize), ..v }
}

/// The cursor of the focused column.
pub open spec fn cursor(v: AppView) -> int {
    v.kanban_cursor[v.kanban_col as int] as int
}

/// The board cursor stepped down its column, the last card wrapping to the
/// first; an empty column leaves it.
pub open spec fn kanban_stepped_down(v: AppView) -> AppView {
    let n = focused_column(v).len();
    if n == 0 {
        v
    } else {
        with_cursor(v, if cursor(v) >= n - 1 { 0 } else { cursor(v) + 1 })
    }
}

/// The board cursor stepped up its column, the first card wrapping to the
/// last; an empty column leaves it.
pub open spec fn kanban_stepped_up(v: AppView) -> AppView {
    let n = focused_column(v).len();
    if n == 0 {
        v
    } else {
        with_cursor(v, if cursor(v) == 0 { n - 1 } else { cursor(v) - 1 })
    }
}

/// The view with the board column to the left focused (the first wraps
/// to the last).
pub open spec fn kanban_left_spec(v: AppView) -> AppView {
    AppView {
        kanban_col: if v.kanban_col > 0 {
            (v.kanban_col - 1) as usize
        } else {
            2
        },
        ..v
    }
}

/// The view with the board column to the right focused (the last wraps to
/// the first).
pub open spec fn kanban_right_spec(v: AppView) -> AppView {
    AppView {
        kanban_col: if v.kanban_col < 2 {
            (v.kanban_col + 1) as usize
        } else {
            0
        },
        ..v
    }
}

/// The effect of the down key: the next navigator entry (wrapping), the
/// next card or row (wrapping), or one more line of inspector scroll.
pub open spec fn select_next_post(pre: AppView, post: AppView) -> bool {
    match pre.focus_pane {
        FocusPane::Nav => nav_applied(
            AppView { nav_index: ((pre.nav_index + 1) % nav_total(pre)) as usize, ..pre },
            post,
        ),
        FocusPane::Main => post == if pre.view_mode == ViewMode::Kanban {
            kanban_stepped_down(pre)
        } else if pre.cache.filtered.len() == 0 {
            pre
        } else {
            AppView { selected: Some(row_after_next(pre.selected, pre.cache.filtered.len() as int)), ..pre }
        },
        FocusPane::Inspector => post == AppView {
            inspector_scroll: if pre.inspector_scroll == u16::MAX {
                u16::MAX
            } else {
                (pre.inspector_scroll + 1) as u16
            },
            ..pre
        },
    }
}

/// The effect of the up key: the previous navigator entry (wrapping), the
/// previous card or row (wrapping), or one line less of inspector scroll.
pub open spec fn select_prev_post(pre: AppView, post: AppView) -> bool {
    match pre.focus_pane {
        FocusPane::Nav => nav_applied(
            AppView {
                nav_index: if pre.nav_index == 0 {
                    (nav_total(pre) - 1) as usize
                } else {
                    (pre.nav_index - 1) as usize
                },
                ..pre
            },
            post,
        ),
        FocusPane::Main => post == if pre.view_mode == ViewMode::Kanban {
            kanban_stepped_up(pre)
        } else if pre.cache.filtered.len() == 0 {
            pre
        } else {
            AppView { selected: Some(row_after_prev(pre.selected, pre.cache.filtered.len() as int)), ..pre }
        },
        FocusPane::Inspector => post == AppView {
            inspector_scroll: if pre.inspector_scroll == 0 {
                0
            } else {
                (pre.inspector_scroll - 1) as u16
            },
            ..pre
        },
    }
}

/// Moving the board focus right and then left comes back to the same
/// column, and the other way round.
pub proof fn law_kanban_left_undoes_right(v: AppView)
    requires
        v.kanban_col < 3,
    ensures
        kanban_left_spec(kanban_right_spec(v)) == v,
        kanban_right_spec(kanban_left_spec(v)) == v,
{
}

/// In a table of `count` rows, stepping up undoes stepping down and the
/// other way round, wrapping at both ends.
pub proof fn law_row_prev_undoes_next(i: usize, count: usize)
    requires
        i < count,
    ensures
        row_after_prev(Some(row_after_next(Some(i), count as int)), count as int) == i,
        row_after_next(Some(row_after_prev(Some(i), count as int)), count as int) == i,
{
}

impl App {
    /// Applies the navigator entry under the cursor: a fixed section (which
    /// clears the search filter) or a tag filter. Refreshes the caches and
    /// selects the first row.
    pub fn apply_nav_selection(&mut self)
        requires
            wf(old(self)@),
        ensures
            nav_applied(old(self)@, final(self)@),
            wf(final(self)@),
    {
        if self.nav_index < 5 {
            let sections = NavSection::all();
            self.nav_section = sections[self.nav_index];
            self.tag_filter = None;
            let msg = concat2("View: ", self.nav_section.label());
            self.set_status_message(msg);
        } else {
            let tag_idx = self.nav_index - 5;
            let tags = self.cache.tags();
            if tag_idx < tags.len() {
                let ghost v = self@;
                let tag_name = &tags[tag_idx].0;
                let mut filter = String::new();
                push_str(&mut filter, "#");
                push_str(&mut filter, tag_name.as_str());
                let mut msg = String::new();
                push_str(&mut msg, "Filtered by tag #");
                push_str(&mut msg, tag_name.as_str());
                assert(tag_name@ == v.cache.tags[tag_idx as int].0);
                self.nav_section = NavSection::All;
                self.tag_filter = Some(filter);
                self.set_status_message(msg);
            }
        }
        self.refresh_cache();
        self.selected = Some(0);
    }

    /// The cards of the board column showing status `status`.
    pub fn get_kanban_column_indices(&self, status: Status) -> (r: &[usize])
        ensures
            r@ == self@.cache.columns[status_rank(status)],
    {
        self.cache.column(status)
    }

    /// Focuses the board column to the left, wrapping to the last.
    pub fn kanban_left(&mut self)
        ensures
            final(self)@ == kanban_left_spec(old(self)@),
    {
        if self.kanban_col > 0 {
            self.kanban_col = self.kanban_col - 1;
        } else {
            self.kanban_col = 2;
        }
    }

    /// Focuses the board column to the right, wrapping to the first.
    pub fn kanban_right(&mut self)
        ensures
            final(self)@ == kanban_right_spec(old(self)@),
    {
        if self.kanban_col < 2 {
            self.kanban_col = self.kanban_col + 1;
        } else {
            self.kanban_col = 0;
        }
    }

    /// The status shown in the focused board column.
    fn focused_status(&self) -> (s: Status)
        ensures
            s == crate::app::kanban_status(self.kanban_col),
    {
        if self.kanban_col == 0 {
            Status::Todo
        } else if self.kanban_col == 1 {
            Status::InProgress
        } else {
            Status::Complete
        }
    }

    /// Moves the board cursor down its column, wrapping.
    pub fn kanban_next(&mut self)
        requires
            old(self)@.kanban_col < 3,
        ensures
            final(self)@ == kanban_stepped_down(old(self)@),
    {
        let status = self.focused_status();
        let n = self.get_kanban_column_indices(status).len();
        if n > 0 {
            let col = self.kanban_col;
            let curr = self.kanban_cursor[col];
            let next = if curr >= n - 1 {
                0
            } else {
                curr + 1
            };
            self.kanban_cursor[col] = next;
        }
        assert(self@.kanban_cursor =~= kanban_stepped_down(old(self)@).kanban_cursor);
    }

    /// Moves the board cursor up its column, wrapping.
    pub fn kanban_prev(&mut self)
        requires
            old(self)@.kanban_col < 3,
        ensures
            final(self)@ == kanban_stepped_up(old(self)@),
    {
        let status = self.focused_status();
        let n = self.get_kanban_column_indices(status).len();
        if n > 0 {
            let col = self.kanban_col;
            let curr = self.kanban_cursor[col];
            let next = if curr == 0 {
                n - 1
            } else {
                curr - 1
            };
            self.kanban_cursor[col] = next;
        }
        assert(self@.kanban_cursor =~= kanban_stepped_up(old(self)@).kanban_cursor);
    }
}


/// The effect of `jump_to_top`: the first card of the focused column, or
/// the first table row when there is one.
pub open spec fn top_post(pre: AppView) -> AppView {
    if pre.view_mode == ViewMode::Kanban {
        with_cursor(pre, 0)
    } else if pre.cache.filtered.len() > 0 {
        AppView { selected: Some(0), ..pre }
    } else {
        pre
    }
}

/// The effect of `jump_to_bottom`: the last card of the focused column, or
/// the last table row; nothing when that list is empty.
pub open spec fn bottom_post(pre: AppView) -> AppView {
    if pre.view_mode == ViewMode::Kanban {
        if focused_column(pre).len() > 0 {
            with_cursor(pre, focused_column(pre).len() - 1)
        } else {
            pre
        }
    } else if pre.cache.filtered.len() > 0 {
        AppView { selected: Some((pre.cache.filtered.len() - 1) as usize), ..pre }
    } else {
        pre
    }
}

/// The table row `step` rows further down, stopping at the last row.
pub open spec fn row_page_down(sel: Option<usize>, step: int, count: int) -> usize {
    match sel {
        Some(i) => if i + step < count - 1 {
            (i + step) as usize
        } else {
            (count - 1) as usize
        },
        None => 0,
    }
}

/// The table row `step` rows further up, stopping at the first row.
pub open spec fn row_page_up(sel: Option<usize>, step: int) -> usize {
    match sel {
        Some(i) => if i > step {
            (i - step) as usize
        } else {
            0
        },
        None => 0,
    }
}

/// The view after paging `step` rows down the table.
pub open spec fn page_down_spec(v: AppView, step: int) -> AppView {
    if v.cache.filtered.len() == 0 {
        v
    } else {
        AppView { selected: Some(row_page_down(v.selected, step, v.cache.filtered.len() as int)), ..v }
    }
}

/// The view after paging `step` rows up the table.
pub open spec fn page_up_spec(v: AppView, step: int) -> AppView {
    if v.cache.filtered.len() == 0 {
        v
    } else {
        AppView { selected: Some(row_page_up(v.selected, step)), ..v }
    }
}

impl App {
    /// The down key: in the navigator, the next entry (wrapping) is applied;
    /// in the main pane, the next card or table row is selected (wrapping);
    /// in the inspector, it scrolls one line down.
    pub fn select_next(&mut self)
        requires
            wf(old(self)@),
        ensures
            select_next_post(old(self)@, final(self)@),
            wf(final(self)@),
    {
        match self.focus_pane {
            FocusPane::Nav => {
                let total_nav = 5 + self.cache.tags().len();
                self.nav_index = (self.nav_index + 1) % total_nav;
                self.apply_nav_selection();
            },
            FocusPane::Main => {
                if self.view_mode == ViewMode::Kanban {
                    self.kanban_next();
                } else {
                    let count = self.get_filtered_indices().len();
                    if count == 0 {
                        return ;
                    }
                    let i = match self.selected {
                        Some(i) => if i >= count - 1 {
                            0
                        } else {
                            i + 1
                        },
                        None => 0,
                    };
                    self.selected = Some(i);
                }
            },
            FocusPane::Inspector => {
                self.inspector_scroll = self.inspector_scroll.saturating_add(1);
            },
        }
    }

    /// The up key: in the navigator, the previous entry (wrapping) is
    /// applied; in the main pane, the previous card or table row is selected
    /// (wrapping); in the inspector, it scrolls one line up.
    pub fn select_prev(&mut self)
        requires
            wf(old(self)@),
        ensures
            select_prev_post(old(self)@, final(self)@),
            wf(final(self)@),
    {
        match self.focus_pane {
            FocusPane::Nav => {
                let total_nav = 5 + self.cache.tags().len();
                self.nav_index = if self.nav_index == 0 {
                    total_nav - 1
                } else {
                    self.nav_index - 1
                };
                self.apply_nav_selection();
            },
            FocusPane::Main => {
                if self.view_mode == ViewMode::Kanban {
                    self.kanban_prev();
                } else {
                    let count = self.get_filtered_indices().len();
                    if count == 0 {
                        return ;
                    }
                    let i = match self.selected {
                        Some(i) => if i == 0 {
                            count - 1
                        } else {
                            i - 1
                        },
                        None => 0,
                    };
                    self.selected = Some(i);
                }
            },
            FocusPane::Inspector => {
                self.inspector_scroll = self.inspector_scroll.saturating_sub(1);
            },
        }
    }

    /// Selects the first card of the focused column, or the first row.
    pub fn jump_to_top(&mut self)
        requires
            old(self)@.kanban_col < 3,
        ensures
            final(self)@ == top_post(old(self)@),
    {
        if self.view_mode == ViewMode::Kanban {
            let col = self.kanban_col;
            self.kanban_cursor[col] = 0;
            assert(self@.kanban_cursor =~= top_post(old(self)@).kanban_cursor);
        } else if self.get_filtered_indices().len() > 0 {
            self.selected = Some(0);
        }
    }

    /// Selects the last card of the focused column, or the last row.
    pub fn jump_to_bottom(&mut self)
        requires
            old(self)@.kanban_col < 3,
        ensures
            final(self)@ == bottom_post(old(self)@),
    {
        if self.view_mode == ViewMode::Kanban {
            let status = self.focused_status();
            let count = self.get_kanban_column_indices(status).len();
            if count > 0 {
                let col = self.kanban_col;
                self.kanban_cursor[col] = count - 1;
                assert(self@.kanban_cursor =~= bottom_post(old(self)@).kanban_cursor);
            }
        } else {
            let len = self.get_filtered_indices().len();
            if len > 0 {
                self.selected = Some(len - 1);
            }
        }
    }

    /// Moves the table selection `step` rows down, stopping at the last row.
    pub fn page_down(&mut self, step: usize)
        ensures
            final(self)@ == page_down_spec(old(self)@, step as int),
    {
        let count = self.get_filtered_indices().len();
        if count == 0 {
            return ;
        }
        let i = match self.selected {
            Some(i) => if i < count - 1 && step < count - 1 - i {
                i + step
            } else {
                count - 1
            },
            None => 0,
        };
        self.selected = Some(i);
    }

    /// Moves the table selection `step` rows up, stopping at the first row.
    pub fn page_up(&mut self, step: usize)
        ensures
            final(self)@ == page_up_spec(old(self)@, step as int),
    {
        let count = self.get_filtered_indices().len();
        if count == 0 {
            return ;
        }
        let i = match self.selected {
            Some(i) => i.saturating_sub(step),
            None => 0,
        };
        self.selected = Some(i);
    }

    /// The list index of the selected task (see `selected_real`).
    pub fn get_selected_real_index(&self) -> (r: Option<usize>)
        requires
            self@.kanban_col < 3,
        ensures
            r == selected_real(self@),
    {
        if self.view_mode == ViewMode::Kanban {
            let status = self.focused_status();
            let col = self.get_kanban_column_indices(status);
            if col.len() == 0 {
                return None;
            }
            let cursor = self.kanban_cursor[self.kanban_col];
            let idx = if cursor < col.len() - 1 {
                cursor
            } else {
                col.len() - 1
            };
            Some(col[idx])
        } else {
            match self.selected {
                Some(sel) => {
                    let filtered = self.get_filtered_indices();
                    if sel < filtered.len() {
                        Some(filtered[sel])
                    } else {
                        None
                    }
                },
                None => None,
            }
        }
    }

    /// The selected task, when the selection names a task of the list.
    pub fn get_selected_item(&self) -> (r: Option<&Item>)
        requires
            self@.kanban_col < 3,
        ensures
            match r {
                Some(it) => selected_real(self@) matches Some(i) && i < self@.items.len() && it@
                    == self@.items[i as int],
                None => selected_real(self@) matches Some(i) ==> i >= self@.items.len(),
            },
    {
        match self.get_selected_real_index() {
            Some(i) => if i < self.items.len() {
                Some(&self.items[i])
            } else {
                None
            },
            None => None,
        }
    }
}

} // verus!
