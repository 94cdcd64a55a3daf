//! What the views read, computed once per change of the task list or of
//! the view settings: the visible tasks in display order, the workspace
//! counts, the tag table and the three board columns.
use vstd::prelude::*;
use crate::app::{NavSection, SortMode, WorkspaceStats};
use crate::filter::{filter_view, lemma_visible_increasing, same_elements, sort_indices, sorted_by_rank,
    title_keys, visible, visible_indices};
use crate::models::item::{Item, ItemView, items_view};
use crate::models::priority::Priority;
use crate::models::status::{Status, status_of_rank, status_rank};
use crate::tags::{tag_occurrences, tag_table, tag_table_ok, tag_table_view};

verus! {

/// The indices of the tasks with status `s`, in list order.
pub open spec fn status_indices(items: Seq<ItemView>, s: Status) -> Seq<usize>
    decreases items.len(),
{
    if items.len() == 0 {
        Seq::empty()
    } else {
        let prev = status_indices(items.drop_last(), s);
        if items.last().status == s {
            prev.push((items.len() - 1) as usize)
        } else {
            prev
        }
    }
}

/// The number of tasks with priority `p`.
pub open spec fn priority_count(items: Seq<ItemView>, p: Priority) -> nat
    decreases items.len(),
{
    if items.len() == 0 {
        0
    } else {
        priority_count(items.drop_last(), p) + if items.last().priority == p {
            1nat
        } else {
            0nat
        }
    }
}

/// The counts are those of `items`; `percent` is the share of completed
/// tasks, rounded down (0 for an empty list).
pub open spec fn stats_ok(items: Seq<ItemView>, st: WorkspaceStats) -> bool {
    &&& st.total == items.len()
    &&& st.todo == status_indices(items, Status::Todo).len()
    &&& st.in_progress == status_indices(items, Status::InProgress).len()
    &&& st.complete == status_indices(items, Status::Complete).len()
    &&& st.percent == (if items.len() == 0 {
        0
    } else {
        st.complete * 100 / (items.len() as int)
    })
    &&& st.urgent == priority_count(items, Priority::Urgent)
    &&& st.high == priority_count(items, Priority::High)
    &&& st.medium == priority_count(items, Priority::Medium)
    &&& st.low == priority_count(items, Priority::Low)
}

/// `s` lists exactly the visible tasks, in display order.
pub open spec fn order_ok(
    items: Seq<ItemView>,
    section: NavSection,
    filter: Option<Seq<char>>,
    mode: SortMode,
    s: Seq<usize>,
) -> bool {
    &&& sorted_by_rank(items, mode, s)
    &&& same_elements(s, visible_indices(items, section, filter))
    &&& s.len() == visible_indices(items, section, filter).len()
}

/// The sizes the computations rely on: the counts, the percentage and the
/// navigator size fit a `usize` (far below what memory can hold).
pub open spec fn within_limits(items: Seq<ItemView>) -> bool {
    &&& items.len() <= usize::MAX / 100
    &&& tag_occurrences(items) <= usize::MAX / 2
}

/// The cached views as plain values.
pub struct CacheView {
    pub filtered: Seq<usize>,
    pub stats: WorkspaceStats,
    pub tags: Seq<(Seq<char>, usize)>,
    pub columns: Seq<Seq<usize>>,
}

/// `c` is what the views of `items` show under the section, filter and sort.
pub open spec fn cache_matches(
    items: Seq<ItemView>,
    section: NavSection,
    filter: Option<Seq<char>>,
    mode: SortMode,
    c: CacheView,
) -> bool {
    &&& order_ok(items, section, filter, mode, c.filtered)
    &&& stats_ok(items, c.stats)
    &&& tag_table_ok(items, c.tags)
    &&& c.tags.len() <= tag_occurrences(items)
    &&& c.columns.len() == 3
    &&& forall|k: int| 0 <= k < 3 ==> #[trigger] c.columns[k] == status_indices(items, status_of_rank(k))
}

/// The views derived from the task list. Only `compute` fills it, so it
/// always describes some state of the list.
pub struct ViewCache {
    filtered: Vec<usize>,
    stats: WorkspaceStats,
    tags: Vec<(String, usize)>,
    columns: [Vec<usize>; 3],
}

impl View for ViewCache {
    type V = CacheView;

    closed spec fn view(&self) -> CacheView {
        CacheView {
            filtered: self.filtered@,
            stats: self.stats,
            tags: tag_table_view(self.tags@),
            columns: seq![self.columns[0]@, self.columns[1]@, self.columns[2]@],
        }
    }
}

/// Empty counts.
pub open spec fn zero_stats() -> WorkspaceStats {
    WorkspaceStats {
        total: 0,
        todo: 0,
        in_progress: 0,
        complete: 0,
        percent: 0,
        urgent: 0,
        high: 0,
        medium: 0,
        low: 0,
    }
}

/// The indices of the tasks with status `s`.
fn indices_with_status(items: &Vec<Item>, s: Status) -> (r: Vec<usize>)
    ensures
        r@ == status_indices(items_view(items@), s),
{
    let mut r: Vec<usize> = Vec::new();
    let mut i: usize = 0;
    while i < items.len()
        invariant
            i <= items@.len(),
            r@ == status_indices(items_view(items@).take(i as int), s),
        decreases items@.len() - i,
    {
        let ghost v = items_view(items@);
        assert(v.take(i + 1).drop_last() == v.take(i as int));
        if items[i].status == s {
            r.push(i);
        }
        i = i + 1;
    }
    assert(items_view(items@).take(items@.len() as int) == items_view(items@));
    r
}

proof fn lemma_count_bounds(items: Seq<ItemView>, s: Status, p: Priority)
    ensures
        status_indices(items, s).len() <= items.len(),
        priority_count(items, p) <= items.len(),
    decreases items.len(),
{
    if items.len() > 0 {
        lemma_count_bounds(items.drop_last(), s, p);
    }
}

/// The number of tasks with priority `p`.
fn count_priority(items: &Vec<Item>, p: Priority) -> (r: usize)
    ensures
        r == priority_count(items_view(items@), p),
{
    let mut r: usize = 0;
    let mut i: usize = 0;
    while i < items.len()
        invariant
            i <= items@.len(),
            r == priority_count(items_view(items@).take(i as int), p),
        decreases items@.len() - i,
    {
        let ghost v = items_view(items@);
        assert(v.take(i + 1).drop_last() == v.take(i as int));
        proof {
            lemma_count_bounds(v.take(i + 1), Status::Todo, p);
        }
        if items[i].priority == p {
            r = r + 1;
        }
        i = i + 1;
    }
    assert(items_view(items@).take(items@.len() as int) == items_view(items@));
    r
}

impl ViewCache {
    /// A cache describing no tasks.
    pub fn empty() -> (r: Self)
        ensures
            r@.filtered == Seq::<usize>::empty(),
            r@.stats == zero_stats(),
            r@.tags == Seq::<(Seq<char>, usize)>::empty(),
            r@.columns == seq![Seq::<usize>::empty(), Seq::<usize>::empty(), Seq::<usize>::empty()],
    {
        let r = ViewCache {
            filtered: Vec::new(),
            stats: WorkspaceStats {
                total: 0,
                todo: 0,
                in_progress: 0,
                complete: 0,
                percent: 0,
                urgent: 0,
                high: 0,
                medium: 0,
                low: 0,
            },
            tags: Vec::new(),
            columns: [Vec::new(), Vec::new(), Vec::new()],
        };
        assert(tag_table_view(r.tags@) =~= Seq::<(Seq<char>, usize)>::empty());
        r
    }

    /// The views of `items` under the section, filter and sort.
    pub fn compute(items: &Vec<Item>, section: NavSection, filter: &Option<String>, mode: SortMode) -> (r: Self)
        requires
            within_limits(items_view(items@)),
        ensures
            cache_matches(items_view(items@), section, filter_view(*filter), mode, r@),
            r@.filtered.len() <= usize::MAX,
    {
        let ghost v = items_view(items@);
        let todo = indices_with_status(items, Status::Todo);
        let in_progress = indices_with_status(items, Status::InProgress);
        let complete = indices_with_status(items, Status::Complete);
        proof {
            lemma_count_bounds(v, Status::Complete, Priority::Urgent);
        }
        let total = items.len();
        let percent = if total == 0 {
            0
        } else {
            complete.len() * 100 / total
        };
        let stats = WorkspaceStats {
            total,
            todo: todo.len(),
            in_progress: in_progress.len(),
            complete: complete.len(),
            percent,
            urgent: count_priority(items, Priority::Urgent),
            high: count_priority(items, Priority::High),
            medium: count_priority(items, Priority::Medium),
            low: count_priority(items, Priority::Low),
        };
        let tags = tag_table(items);
        let shown = visible(items, section, filter);
        proof {
            lemma_visible_increasing(v, section, filter_view(*filter));
        }
        let keys = title_keys(items);
        let filtered = sort_indices(items, &keys, mode, &shown);
        let _rows = filtered.len();
        let r = ViewCache { filtered, stats, tags, columns: [todo, in_progress, complete] };
        proof {
            assert forall|k: int| 0 <= k < 3 implies #[trigger] r@.columns[k] == status_indices(v, status_of_rank(k)) by {
                if k == 0 {
                    assert(r@.columns[0] == r.columns[0]@);
                } else if k == 1 {
                    assert(r@.columns[1] == r.columns[1]@);
                } else {
                    assert(r@.columns[2] == r.columns[2]@);
                }
            }
        }
        r
    }

    /// The visible tasks in display order.
    pub fn filtered(&self) -> (r: &[usize])
        ensures
            r@ == self@.filtered,
    {
        self.filtered.as_slice()
    }

    /// The workspace counts.
    pub fn stats(&self) -> (r: WorkspaceStats)
        ensures
            r == self@.stats,
    {
        self.stats
    }

    /// The tag table.
    pub fn tags(&self) -> (r: &[(String, usize)])
        ensures
            tag_table_view(r@) == self@.tags,
            r@.len() == self@.tags.len(),
    {
        self.tags.as_slice()
    }

    /// The board column of status `s`.
    pub fn column(&self, s: Status) -> (r: &[usize])
        ensures
            r@ == self@.columns[status_rank(s)],
    {
        match s {
            Status::Todo => self.columns[0].as_slice(),
            Status::InProgress => self.columns[1].as_slice(),
            Status::Complete => self.columns[2].as_slice(),
        }
    }
}


/// Tag uses add up over a concatenation.
pub proof fn lemma_occurrences_concat(a: Seq<ItemView>, b: Seq<ItemView>)
    ensures
        tag_occurrences(a + b) == tag_occurrences(a) + tag_occurrences(b),
    decreases b.len(),
{
    if b.len() == 0 {
        assert(a + b =~= a);
    } else {
        lemma_occurrences_concat(a, b.drop_last());
        assert((a + b).drop_last() =~= a + b.drop_last());
    }
}

proof fn lemma_occurrences_one(x: ItemView)
    ensures
        tag_occurrences(seq![x]) == x.tags.len(),
{
    let s = seq![x];
    assert(s.drop_last() =~= Seq::<ItemView>::empty());
    assert(tag_occurrences(s.drop_last()) == 0);
    assert(s.last() == x);
}

/// Replacing task `i` by `x` changes the tag uses by the difference of
/// their tag counts.
pub proof fn lemma_occurrences_update(s: Seq<ItemView>, i: int, x: ItemView)
    requires
        0 <= i < s.len(),
    ensures
        tag_occurrences(s.update(i, x)) + s[i].tags.len() == tag_occurrences(s) + x.tags.len(),
{
    let u = s.update(i, x);
    assert(s =~= s.take(i) + seq![s[i]] + s.skip(i + 1));
    assert(u =~= s.take(i) + seq![x] + s.skip(i + 1));
    lemma_occurrences_concat(s.take(i) + seq![s[i]], s.skip(i + 1));
    lemma_occurrences_concat(s.take(i), seq![s[i]]);
    lemma_occurrences_concat(s.take(i) + seq![x], s.skip(i + 1));
    lemma_occurrences_concat(s.take(i), seq![x]);
    lemma_occurrences_one(s[i]);
    lemma_occurrences_one(x);
}

/// Removing task `i` removes its tag uses.
pub proof fn lemma_occurrences_remove(s: Seq<ItemView>, i: int)
    requires
        0 <= i < s.len(),
    ensures
        tag_occurrences(s.remove(i)) + s[i].tags.len() == tag_occurrences(s),
{
    assert(s =~= s.take(i) + seq![s[i]] + s.skip(i + 1));
    assert(s.remove(i) =~= s.take(i) + s.skip(i + 1));
    lemma_occurrences_concat(s.take(i) + seq![s[i]], s.skip(i + 1));
    lemma_occurrences_concat(s.take(i), seq![s[i]]);
    lemma_occurrences_concat(s.take(i), s.skip(i + 1));
    lemma_occurrences_one(s[i]);
}

/// Inserting `x` adds its tag uses.
pub proof fn lemma_occurrences_insert(s: Seq<ItemView>, i: int, x: ItemView)
    requires
        0 <= i <= s.len(),
    ensures
        tag_occurrences(s.insert(i, x)) == tag_occurrences(s) + x.tags.len(),
{
    assert(s =~= s.take(i) + s.skip(i));
    assert(s.insert(i, x) =~= s.take(i) + seq![x] + s.skip(i));
    lemma_occurrences_concat(s.take(i), s.skip(i));
    lemma_occurrences_concat(s.take(i) + seq![x], s.skip(i));
    lemma_occurrences_concat(s.take(i), seq![x]);
    lemma_occurrences_one(x);
}

/// Every task has one status and one priority, so the status counts and
/// the priority counts each add up to the number of tasks.
pub proof fn law_counts_add_up(items: Seq<ItemView>)
    ensures
        status_indices(items, Status::Todo).len() + status_indices(items, Status::InProgress).len()
            + status_indices(items, Status::Complete).len() == items.len(),
        priority_count(items, Priority::Urgent) + priority_count(items, Priority::High) + priority_count(
            items,
            Priority::Medium,
        ) + priority_count(items, Priority::Low) == items.len(),
    decreases items.len(),
{
    if items.len() > 0 {
        law_counts_add_up(items.drop_last());
    }
}

/// The board columns hold positions of the list.
pub proof fn lemma_status_indices_in_range(items: Seq<ItemView>, s: Status)
    requires
        items.len() <= usize::MAX,
    ensures
        forall|k: int|
            0 <= k < status_indices(items, s).len() ==> #[trigger] status_indices(items, s)[k] < items.len(),
    decreases items.len(),
{
    if items.len() > 0 {
        lemma_status_indices_in_range(items.drop_last(), s);
        let prev = status_indices(items.drop_last(), s);
        let all = status_indices(items, s);
        assert forall|k: int| 0 <= k < all.len() implies #[trigger] all[k] < items.len() by {
            if k < prev.len() {
                assert(all[k] == prev[k]);
            }
        }
    }
}

} // verus!
