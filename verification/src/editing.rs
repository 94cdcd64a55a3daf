//! Changing the task list from the workspace: status and priority of the
//! selected task, moving it across the board or up and down the list, and
//! deleting it with one level of undo.
use vstd::prelude::*;
use crate::app::{App, AppView, FocusPane, NavSection, SortMode, ViewMode, concat2, concat3, fresh,
    owned, kanban_status, refreshed, selected_real, selection_in_range, wf, with_message};
use crate::filter::{increasing, item_visible, lemma_visible_increasing, ranks_before, visible_indices};
use crate::display::{cut, cut_ok, cut_text};
use crate::cache::{lemma_status_indices_in_range, status_indices, lemma_occurrences_insert, lemma_occurrences_remove, lemma_occurrences_update,
    within_limits};
use crate::models::item::{ItemView, items_view};
use crate::models::priority::{Priority, priority_label, priority_of_rank, priority_rank};
use crate::models::status::{Status, status_label, status_of_rank, status_rank};
use crate::navigation::{row_after_next, row_after_prev, select_next_post, select_prev_post};

verus! {

/// `pre` with task `r` replaced by `it` and the message `m` shown, after
/// which the caches were refreshed.
pub open spec fn task_changed(pre: AppView, post: AppView, r: int, it: ItemView, m: Seq<char>) -> bool {
    refreshed(with_message(AppView { items: pre.items.update(r, it), ..pre }, m), post)
}

/// The effect of `toggle_status`: the selected task moves to the next
/// status (wrapping from done to todo); nothing without a selection.
pub open spec fn toggle_status_post(pre: AppView, post: AppView) -> bool {
    match selected_real(pre) {
        None => post == pre,
        Some(r) => {
            let it = pre.items[r as int];
            let s = status_of_rank(status_rank(it.status) + 1);
            task_changed(pre, post, r as int, ItemView { status: s, ..it }, "Status changed to "@ + status_label(s))
        },
    }
}

/// The effect of setting the selected task's priority to `p`.
pub open spec fn priority_set_post(pre: AppView, post: AppView, p: Priority) -> bool {
    match selected_real(pre) {
        None => post == pre,
        Some(r) => task_changed(
            pre,
            post,
            r as int,
            ItemView { priority: p, ..pre.items[r as int] },
            "Priority set to "@ + priority_label(p),
        ),
    }
}

/// The priority after `steps` steps down the scale from the selected
/// task's (4 steps make a full turn).
pub open spec fn stepped_priority(pre: AppView, steps: int) -> Priority {
    match selected_real(pre) {
        Some(r) => priority_of_rank(priority_rank(pre.items[r as int].priority) + steps),
        None => Priority::Medium,
    }
}

/// The effect of moving the selected card `steps` columns to the right (2
/// steps is one to the left; the board wraps): the task takes that status,
/// and the focus follows it unless it is at the board's edge.
pub open spec fn shifted_post(pre: AppView, post: AppView, steps: int) -> bool {
    match selected_real(pre) {
        None => post == pre,
        Some(r) => {
            let it = pre.items[r as int];
            let s = status_of_rank(status_rank(it.status) + steps);
            let col = if steps == 1 {
                if pre.kanban_col < 2 {
                    (pre.kanban_col + 1) as usize
                } else {
                    pre.kanban_col
                }
            } else if pre.kanban_col > 0 {
                (pre.kanban_col - 1) as usize
            } else {
                pre.kanban_col
            };
            refreshed(
                with_message(
                    AppView { items: pre.items.update(r as int, ItemView { status: s, ..it }), kanban_col: col, ..pre },
                    "Shifted task to "@ + status_label(s),
                ),
                post,
            )
        },
    }
}

/// The title as shown in messages: cut after 28 bytes (see `cut`).
pub open spec fn snippet(t: Seq<char>) -> Seq<char> {
    cut(t, 28)
}

/// A title that can be cut for a message.
pub open spec fn snippet_ok(t: Seq<char>) -> bool {
    cut_ok(t, 28)
}

/// The table selection once the visible list has `n` rows: none when it is
/// empty, the last row when the selection was past it.
pub open spec fn clamp_row(sel: Option<usize>, n: int) -> Option<usize> {
    if n == 0 {
        None
    } else {
        match sel {
            Some(i) => if i >= n {
                Some((n - 1) as usize)
            } else {
                Some(i)
            },
            None => None,
        }
    }
}

/// The effect of `delete_selected`: the selected task leaves the list and
/// goes, with its position, into the undo slot; the caches are refreshed and
/// the selection kept within the visible rows.
pub open spec fn delete_post(pre: AppView, post: AppView) -> bool {
    match selected_real(pre) {
        None => post == pre,
        Some(r) => {
            let d = pre.items[r as int];
            &&& fresh(post)
            &&& post == with_message(
                AppView {
                    items: pre.items.remove(r as int),
                    last_deleted: Some((r, d)),
                    selected: clamp_row(pre.selected, post.cache.filtered.len() as int),
                    cache: post.cache,
                    ..pre
                },
                "Deleted \""@ + snippet(d.title) + "\" (press 'u' to undo)"@,
            )
        },
    }
}

/// Where `undo_delete` puts the task back: its old position, or the end of
/// a list that has since become shorter.
pub open spec fn restore_index(pre: AppView, i: usize) -> int {
    if i < pre.items.len() {
        i as int
    } else {
        pre.items.len() as int
    }
}

/// The effect of `undo_delete`: the task in the undo slot goes back into the
/// list and is selected; with an empty slot only a message is shown.
pub open spec fn undo_post(pre: AppView, post: AppView) -> bool {
    match pre.last_deleted {
        None => post == with_message(pre, "Nothing to undo"@),
        Some(d) => {
            let k = restore_index(pre, d.0);
            &&& fresh(post)
            &&& post == with_message(
                AppView {
                    items: pre.items.insert(k, d.1),
                    last_deleted: None,
                    selected: Some(k as usize),
                    cache: post.cache,
                    ..pre
                },
                "Restored \""@ + snippet(d.1.title) + "\""@,
            )
        },
    }
}

/// `undo_delete` can run: the task in the slot can be cut for the message
/// and the list with it back stays within limits.
pub open spec fn undo_ok(v: AppView) -> bool {
    match v.last_deleted {
        None => true,
        Some(d) => snippet_ok(d.1.title) && within_limits(v.items.insert(restore_index(v, d.0), d.1)),
    }
}

/// The list with the tasks at `i` and `j` exchanged.
pub open spec fn swapped(s: Seq<ItemView>, i: int, j: int) -> Seq<ItemView> {
    s.update(i, s[j]).update(j, s[i])
}

/// The effect of `move_selected_down`: the selected task trades places with
/// the next one, the caches are refreshed, the down key is applied (so the
/// selection follows in the table) and a message is shown. Nothing happens
/// for the last task or without a selection.
pub open spec fn move_down_post(pre: AppView, post: AppView) -> bool {
    match selected_real(pre) {
        Some(r) => if r + 1 < pre.items.len() {
            exists|mid: AppView, m2: AppView|
                #![trigger select_next_post(mid, m2)]
                refreshed(AppView { items: swapped(pre.items, r as int, r + 1), ..pre }, mid)
                    && select_next_post(mid, m2) && post == with_message(m2, "Moved task down"@)
        } else {
            post == pre
        },
        None => post == pre,
    }
}

/// The effect of `move_selected_up`: as `move_down_post`, with the previous
/// task and the up key. Nothing happens for the first task.
pub open spec fn move_up_post(pre: AppView, post: AppView) -> bool {
    match selected_real(pre) {
        Some(r) => if r > 0 {
            exists|mid: AppView, m2: AppView|
                #![trigger select_prev_post(mid, m2)]
                refreshed(AppView { items: swapped(pre.items, r - 1, r as int), ..pre }, mid)
                    && select_prev_post(mid, m2) && post == with_message(m2, "Moved task up"@)
        } else {
            post == pre
        },
        None => post == pre,
    }
}

impl App {
    /// Replaces the status of task `r`.
    fn set_status_at(&mut self, r: usize, s: Status)
        requires
            r < old(self)@.items.len(),
            within_limits(old(self)@.items),
        ensures
            final(self)@ == (AppView {
                items: old(self)@.items.update(r as int, ItemView { status: s, ..old(self)@.items[r as int] }),
                ..old(self)@
            }),
            within_limits(final(self)@.items),
    {
        let ghost pre = self.items@;
        let mut it = self.items.remove(r);
        it.status = s;
        self.items.insert(r, it);
        proof {
            assert(self.items@ =~= pre.update(r as int, it));
            assert(items_view(self.items@) =~= items_view(pre).update(r as int, it@));
            lemma_occurrences_update(items_view(pre), r as int, it@);
        }
    }

    /// Replaces the priority of task `r`.
    fn set_priority_at(&mut self, r: usize, p: Priority)
        requires
            r < old(self)@.items.len(),
            within_limits(old(self)@.items),
        ensures
            final(self)@ == (AppView {
                items: old(self)@.items.update(r as int, ItemView { priority: p, ..old(self)@.items[r as int] }),
                ..old(self)@
            }),
            within_limits(final(self)@.items),
    {
        let ghost pre = self.items@;
        let mut it = self.items.remove(r);
        it.priority = p;
        self.items.insert(r, it);
        proof {
            assert(self.items@ =~= pre.update(r as int, it));
            assert(items_view(self.items@) =~= items_view(pre).update(r as int, it@));
            lemma_occurrences_update(items_view(pre), r as int, it@);
        }
    }

    /// Exchanges tasks `r` and `r + 1`.
    fn swap_with_next(&mut self, r: usize)
        requires
            r + 1 < old(self)@.items.len(),
            within_limits(old(self)@.items),
        ensures
            final(self)@ == (AppView { items: swapped(old(self)@.items, r as int, r + 1), ..old(self)@ }),
            within_limits(final(self)@.items),
    {
        let ghost pre = self.items@;
        let b = self.items.remove(r + 1);
        self.items.insert(r, b);
        proof {
            let v = items_view(pre);
            assert(self.items@ =~= pre.remove(r + 1).insert(r as int, pre[r + 1]));
            assert(items_view(self.items@) =~= swapped(v, r as int, r + 1));
            assert(v.remove(r + 1).insert(r as int, v[r + 1]) =~= swapped(v, r as int, r + 1));
            lemma_occurrences_remove(v, r + 1);
            lemma_occurrences_insert(v.remove(r + 1), r as int, v[r + 1]);
        }
    }

    /// Moves the selected task to its next status.
    pub fn toggle_status(&mut self)
        requires
            wf(old(self)@),
            selection_in_range(old(self)@),
        ensures
            toggle_status_post(old(self)@, final(self)@),
            wf(final(self)@),
    {
        if let Some(r) = self.get_selected_real_index() {
            let s = self.items[r].status.next();
            self.set_status_at(r, s);
            self.refresh_cache();
            let msg = concat2("Status changed to ", s.label());
            self.set_status_message(msg);
        }
    }

    /// Sets the selected task's priority.
    pub fn set_priority(&mut self, priority: Priority)
        requires
            wf(old(self)@),
            selection_in_range(old(self)@),
        ensures
            priority_set_post(old(self)@, final(self)@, priority),
            wf(final(self)@),
    {
        if let Some(r) = self.get_selected_real_index() {
            self.set_priority_at(r, priority);
            self.refresh_cache();
            let msg = concat2("Priority set to ", priority.label());
            self.set_status_message(msg);
        }
    }

    /// Lowers the selected task's priority one step (from low it wraps to
    /// urgent).
    pub fn cycle_priority_forward(&mut self)
        requires
            wf(old(self)@),
            selection_in_range(old(self)@),
        ensures
            priority_set_post(old(self)@, final(self)@, stepped_priority(old(self)@, 1)),
            wf(final(self)@),
    {
        if let Some(r) = self.get_selected_real_index() {
            let p = self.items[r].priority.next();
            self.set_priority(p);
        }
    }

    /// Raises the selected task's priority one step (from urgent it wraps to
    /// low).
    pub fn cycle_priority_backward(&mut self)
        requires
            wf(old(self)@),
            selection_in_range(old(self)@),
        ensures
            priority_set_post(old(self)@, final(self)@, stepped_priority(old(self)@, 3)),
            wf(final(self)@),
    {
        if let Some(r) = self.get_selected_real_index() {
            let p = self.items[r].priority.prev();
            self.set_priority(p);
        }
    }

    /// Moves the selected card one column to the left (the first column
    /// wraps to done).
    pub fn kanban_move_task_left(&mut self)
        requires
            wf(old(self)@),
            selection_in_range(old(self)@),
        ensures
            shifted_post(old(self)@, final(self)@, 2),
            wf(final(self)@),
    {
        if let Some(r) = self.get_selected_real_index() {
            let s = self.items[r].status.prev();
            self.set_status_at(r, s);
            self.refresh_cache();
            if self.kanban_col > 0 {
                self.kanban_col = self.kanban_col - 1;
            }
            let msg = concat2("Shifted task to ", s.label());
            self.set_status_message(msg);
        }
    }

    /// Moves the selected card one column to the right (done wraps to
    /// todo).
    pub fn kanban_move_task_right(&mut self)
        requires
            wf(old(self)@),
            selection_in_range(old(self)@),
        ensures
            shifted_post(old(self)@, final(self)@, 1),
            wf(final(self)@),
    {
        if let Some(r) = self.get_selected_real_index() {
            let s = self.items[r].status.next();
            self.set_status_at(r, s);
            self.refresh_cache();
            if self.kanban_col < 2 {
                self.kanban_col = self.kanban_col + 1;
            }
            let msg = concat2("Shifted task to ", s.label());
            self.set_status_message(msg);
        }
    }

    /// Deletes the selected task, keeping it for `undo_delete`.
    pub fn delete_selected(&mut self)
        requires
            wf(old(self)@),
            selection_in_range(old(self)@),
            selected_real(old(self)@) matches Some(r) ==> snippet_ok(old(self)@.items[r as int].title),
        ensures
            delete_post(old(self)@, final(self)@),
            wf(final(self)@),
    {
        if let Some(r) = self.get_selected_real_index() {
            let ghost pre = items_view(self.items@);
            let deleted = self.items.remove(r);
            proof {
                assert(items_view(self.items@) =~= pre.remove(r as int));
                lemma_occurrences_remove(pre, r as int);
            }
            let snippet = cut_text(deleted.title.as_str(), 28);
            self.last_deleted = Some((r, deleted));
            self.refresh_cache();
            let filtered_len = self.get_filtered_indices().len();
            if filtered_len == 0 {
                self.selected = None;
            } else {
                let cur = match self.selected {
                    Some(i) => i,
                    None => 0,
                };
                if cur >= filtered_len {
                    self.selected = Some(filtered_len - 1);
                }
            }
            let msg = concat3("Deleted \"", snippet.as_str(), "\" (press 'u' to undo)");
            self.set_status_message(msg);
        }
    }

    /// Puts the last deleted task back where it was and selects it.
    pub fn undo_delete(&mut self)
        requires
            wf(old(self)@),
            undo_ok(old(self)@),
        ensures
            undo_post(old(self)@, final(self)@),
            wf(final(self)@),
    {
        match self.last_deleted.take() {
            Some((idx, item)) => {
                let insert_idx = if idx < self.items.len() {
                    idx
                } else {
                    self.items.len()
                };
                let snippet = cut_text(item.title.as_str(), 28);
                let ghost pre = items_view(self.items@);
                self.items.insert(insert_idx, item);
                proof {
                    assert(items_view(self.items@) =~= pre.insert(insert_idx as int, item@));
                }
                self.refresh_cache();
                self.selected = Some(insert_idx);
                let msg = concat3("Restored \"", snippet.as_str(), "\"");
                self.set_status_message(msg);
            },
            None => {
                self.set_status_message(owned("Nothing to undo"));
            },
        }
    }

    /// Moves the selected task one place down the list.
    pub fn move_selected_down(&mut self)
        requires
            wf(old(self)@),
        ensures
            move_down_post(old(self)@, final(self)@),
            wf(final(self)@),
    {
        if let Some(r) = self.get_selected_real_index() {
            if r < self.items.len() && r + 1 < self.items.len() {
                self.swap_with_next(r);
                self.refresh_cache();
                let ghost mid = self@;
                self.select_next();
                let ghost m2 = self@;
                self.set_status_message(owned("Moved task down"));
                assert(select_next_post(mid, m2));
            }
        }
    }

    /// Moves the selected task one place up the list.
    pub fn move_selected_up(&mut self)
        requires
            wf(old(self)@),
            selection_in_range(old(self)@),
        ensures
            move_up_post(old(self)@, final(self)@),
            wf(final(self)@),
    {
        if let Some(r) = self.get_selected_real_index() {
            if r > 0 {
                let ghost pre = self@;
                self.swap_with_next(r - 1);
                assert(swapped(pre.items, r - 1, r as int) == self@.items);
                self.refresh_cache();
                let ghost mid = self@;
                self.select_prev();
                let ghost m2 = self@;
                self.set_status_message(owned("Moved task up"));
                assert(select_prev_post(mid, m2));
            }
        }
    }
}


/// Deleting the selected task and then undoing puts the task list back as
/// it was, selects the restored task's row position and empties the undo
/// slot.
pub proof fn law_undo_restores_delete(a: AppView, b: AppView, c: AppView)
    requires
        selected_real(a) is Some,
        selection_in_range(a),
        delete_post(a, b),
        undo_post(b, c),
    ensures
        c.items == a.items,
        c.last_deleted is None,
        c.selected == selected_real(a),
{
    let r = selected_real(a)->0;
    assert(b.items == a.items.remove(r as int));
    assert(restore_index(b, r) == r as int);
    assert(a.items.remove(r as int).insert(r as int, a.items[r as int]) =~= a.items);
}

/// Undoing with an empty undo slot changes neither the task list nor the
/// selection.
pub proof fn law_undo_without_delete_keeps_items(a: AppView, b: AppView)
    requires
        a.last_deleted is None,
        undo_post(a, b),
    ensures
        b.items == a.items,
        b.selected == a.selected,
        b.last_deleted is None,
{
}

/// With every task shown, the visible list is 0, 1, ..., n - 1.
proof fn lemma_all_visible(items: Seq<ItemView>)
    ensures
        visible_indices(items, NavSection::All, None) == Seq::new(items.len(), |i: int| i as usize),
    decreases items.len(),
{
    if items.len() > 0 {
        lemma_all_visible(items.drop_last());
        assert(item_visible(NavSection::All, None, items.last()));
        assert(Seq::new(items.len(), |i: int| i as usize) =~= Seq::new(
            (items.len() - 1) as nat,
            |i: int| i as usize,
        ).push((items.len() - 1) as usize));
    }
}

proof fn lemma_increasing_lower(s: Seq<usize>, k: int)
    requires
        increasing(s),
        0 <= k < s.len(),
    ensures
        s[k] >= k,
    decreases k,
{
    if k > 0 {
        lemma_increasing_lower(s, k - 1);
        assert(s[k - 1] < s[k]);
    }
}

proof fn lemma_increasing_upper(s: Seq<usize>, n: int, k: int)
    requires
        increasing(s),
        0 <= k < s.len(),
        forall|j: int| 0 <= j < s.len() ==> #[trigger] s[j] < n,
    ensures
        s[k] + s.len() - k <= n,
    decreases s.len() - k,
{
    if k + 1 < s.len() {
        lemma_increasing_upper(s, n, k + 1);
        assert(s[k] < s[k + 1]);
    }
}

/// In list order with every task shown, table row `i` is task `i`.
pub proof fn lemma_natural_rows(v: AppView)
    requires
        fresh(v),
        v.sort_mode == SortMode::Natural,
        v.nav_section == NavSection::All,
        v.tag_filter is None,
    ensures
        v.cache.filtered.len() == v.items.len(),
        forall|i: int| 0 <= i < v.items.len() ==> #[trigger] v.cache.filtered[i] == i,
{
    lemma_all_visible(v.items);
    let s = v.cache.filtered;
    let n = v.items.len() as int;
    let id = Seq::new(v.items.len(), |i: int| i as usize);
    assert forall|i: int, j: int| 0 <= i < j < s.len() implies #[trigger] s[i] < #[trigger] s[j] by {
        assert(ranks_before(v.items, SortMode::Natural, s[i] as int, s[j] as int));
    }
    assert forall|k: int| 0 <= k < s.len() implies #[trigger] s[k] < n by {
        assert(id.contains(s[k]));
        let j = choose|j: int| 0 <= j < id.len() && id[j] == s[k];
    }
    assert forall|i: int| 0 <= i < n implies #[trigger] s[i] == i by {
        lemma_increasing_lower(s, i);
        lemma_increasing_upper(s, n, i);
    }
}

/// In the table, with every task shown in list order, fresh caches and the
/// main pane focused, moving the selected task down and then up puts the
/// list back and the selection on the same row. The caches must be fresh:
/// cycling the tag filter when no task has a tag clears the filter without
/// recomputing the rows, and from such rows the two moves act on different
/// tasks.
pub proof fn law_move_up_undoes_move_down(a: AppView, b: AppView, c: AppView)
    requires
        wf(a),
        fresh(a),
        a.view_mode == ViewMode::Table,
        a.focus_pane == FocusPane::Main,
        a.sort_mode == SortMode::Natural,
        a.nav_section == NavSection::All,
        a.tag_filter is None,
        a.selected matches Some(r) && r + 1 < a.items.len(),
        move_down_post(a, b),
        move_up_post(b, c),
    ensures
        c.items == a.items,
        c.selected == a.selected,
{
    let r = a.selected->0;
    let n = a.items.len() as int;
    lemma_natural_rows(a);
    assert(selected_real(a) == Some(r));
    let (mid, m2) = choose|mid: AppView, m2: AppView|
        #![trigger select_next_post(mid, m2)]
        refreshed(AppView { items: swapped(a.items, r as int, r + 1), ..a }, mid) && select_next_post(mid, m2)
            && b == with_message(m2, "Moved task down"@);
    lemma_natural_rows(mid);
    assert(row_after_next(Some(r), n) == r + 1);
    assert(b.selected == Some((r + 1) as usize));
    assert(fresh(b));
    lemma_natural_rows(b);
    assert(selected_real(b) == Some((r + 1) as usize));
    let (mid2, m3) = choose|mid2: AppView, m3: AppView|
        #![trigger select_prev_post(mid2, m3)]
        refreshed(AppView { items: swapped(b.items, r as int, r + 1), ..b }, mid2) && select_prev_post(mid2, m3)
            && c == with_message(m3, "Moved task up"@);
    assert(swapped(swapped(a.items, r as int, r + 1), r as int, r + 1) =~= a.items);
    assert(row_after_prev(Some((r + 1) as usize), n) == r);
}

/// With fresh caches, the selection names a task of the list: every table
/// row and every board card is a position of the list.
pub proof fn law_fresh_selection_in_range(v: AppView)
    requires
        fresh(v),
        v.items.len() <= usize::MAX,
    ensures
        selection_in_range(v),
{
    if v.view_mode == ViewMode::Kanban {
        let s = kanban_status(v.kanban_col);
        lemma_status_indices_in_range(v.items, s);
        assert(v.cache.columns[status_rank(s)] == status_indices(v.items, status_of_rank(status_rank(s))));
        assert(status_of_rank(status_rank(s)) == s);
    } else {
        lemma_visible_increasing(v.items, v.nav_section, v.tag_filter);
        if v.selected is Some && v.selected->0 < v.cache.filtered.len() {
            let sel = v.selected->0 as int;
            let vis = visible_indices(v.items, v.nav_section, v.tag_filter);
            assert(vis.contains(v.cache.filtered[sel]));
        }
    }
}

} // verus!
