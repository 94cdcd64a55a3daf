//! The create/edit form, the tag and section filters, and the small text
//! helpers they use: parsing a comma-separated tag list, joining tags for
//! editing and deleting a word backwards.
use vstd::prelude::*;
use crate::app::{App, AppMode, AppView, FormField, NavSection, ViewMode, cache_in_range, concat2, fresh,
    kanban_status, owned, refreshed, selected_real, selection_in_range, wf, with_message};
use crate::cache::within_limits;
use crate::chars::{from_chars, is_white_space, push_str, slice_chars, to_chars, trim, trim_chars, trim_start};
use crate::models::item::{Item, ItemView, items_view, strings_view};
use crate::models::priority::Priority;
use crate::models::status::Status;
use crate::tags::{tag_table_ok, tag_table_view};
use crate::filter::lemma_seq_lt_irreflexive;
use crate::app::WorkspaceStats;

verus! {

// ---------------------------------------------------------------------------
// Tag lists as typed in the form.
// ---------------------------------------------------------------------------

/// The pieces of `s` between `sep` characters: one more piece than there
/// are separators (`str::split` with a character pattern).
pub open spec fn split_on(s: Seq<char>, sep: char) -> Seq<Seq<char>>
    decreases s.len(),
{
    if s.len() == 0 {
        seq![Seq::empty()]
    } else {
        let prev = split_on(s.drop_last(), sep);
        if s.last() == sep {
            prev.push(Seq::empty())
        } else {
            prev.update(prev.len() - 1, prev.last().push(s.last()))
        }
    }
}

/// The pieces trimmed, without the empty ones.
pub open spec fn kept_tags(pieces: Seq<Seq<char>>) -> Seq<Seq<char>>
    decreases pieces.len(),
{
    if pieces.len() == 0 {
        Seq::empty()
    } else {
        let prev = kept_tags(pieces.drop_last());
        if trim(pieces.last()).len() > 0 {
            prev.push(trim(pieces.last()))
        } else {
            prev
        }
    }
}

/// The tags typed as `a, b, c`: the comma-separated pieces, trimmed, with
/// the empty ones dropped.
pub open spec fn parse_tags(s: Seq<char>) -> Seq<Seq<char>> {
    kept_tags(split_on(s, ','))
}

/// `parts` joined with `sep` between neighbours.
pub open spec fn join(parts: Seq<Seq<char>>, sep: Seq<char>) -> Seq<char>
    decreases parts.len(),
{
    if parts.len() == 0 {
        Seq::empty()
    } else if parts.len() == 1 {
        parts[0]
    } else {
        join(parts.drop_last(), sep) + sep + parts.last()
    }
}

/// Appends the trimmed piece `cur` to `out` when it is not empty.
fn keep_piece(out: &mut Vec<String>, cur: &Vec<char>)
    ensures
        strings_view(final(out)@) == if trim(cur@).len() > 0 {
            strings_view(old(out)@).push(trim(cur@))
        } else {
            strings_view(old(out)@)
        },
{
    let t = trim_chars(cur);
    if t.len() > 0 {
        let s = from_chars(t.as_slice());
        let ghost pre = out@;
        out.push(s);
        assert(strings_view(out@) =~= strings_view(pre).push(trim(cur@)));
    }
}

/// Parses a comma-separated tag list (see `parse_tags`).
pub fn parse_tag_list(text: &str) -> (r: Vec<String>)
    ensures
        strings_view(r@) == parse_tags(text@),
{
    let chars = to_chars(text);
    let mut out: Vec<String> = Vec::new();
    let mut cur: Vec<char> = Vec::new();
    let mut i: usize = 0;
    assert(strings_view(out@) =~= Seq::<Seq<char>>::empty());
    assert(chars@.take(0) =~= Seq::<char>::empty());
    while i < chars.len()
        invariant
            i <= chars@.len(),
            chars@ == text@,
            split_on(chars@.take(i as int), ',').len() >= 1,
            cur@ == split_on(chars@.take(i as int), ',').last(),
            strings_view(out@) == kept_tags(split_on(chars@.take(i as int), ',').drop_last()),
        decreases chars@.len() - i,
    {
        let ghost p = split_on(chars@.take(i as int), ',');
        let ghost s = chars@.take(i + 1);
        assert(s.drop_last() == chars@.take(i as int));
        let c = chars[i];
        if c == ',' {
            keep_piece(&mut out, &cur);
            cur = Vec::new();
            assert(split_on(s, ',') == p.push(Seq::empty()));
            assert(split_on(s, ',').drop_last() == p);
            assert(p.drop_last().push(p.last()) == p);
            assert(cur@ =~= Seq::<char>::empty());
        } else {
            cur.push(c);
            assert(split_on(s, ',').drop_last() =~= p.drop_last());
        }
        i = i + 1;
    }
    let ghost p = split_on(chars@, ',');
    assert(chars@.take(chars@.len() as int) == chars@);
    keep_piece(&mut out, &cur);
    assert(p.drop_last().push(p.last()) =~= p);
    out
}

/// Joins tags with ", " for editing.
pub fn join_tags(tags: &Vec<String>) -> (r: String)
    ensures
        r@ == join(strings_view(tags@), ", "@),
{
    let mut s = String::new();
    let mut i: usize = 0;
    let ghost v = strings_view(tags@);
    assert(v.take(0) =~= Seq::<Seq<char>>::empty());
    while i < tags.len()
        invariant
            i <= tags@.len(),
            v == strings_view(tags@),
            s@ == join(v.take(i as int), ", "@),
        decreases tags@.len() - i,
    {
        assert(v.take(i + 1).drop_last() == v.take(i as int));
        if i > 0 {
            push_str(&mut s, ", ");
        }
        push_str(&mut s, tags[i].as_str());
        assert(v.take(i + 1).last() == tags@[i as int]@);
        i = i + 1;
    }
    assert(v.take(tags@.len() as int) == v);
    s
}

/// A tag that comes back unchanged from being joined with ", " and parsed
/// again: not empty, without surrounding whitespace and without commas.
pub open spec fn clean_tag(t: Seq<char>) -> bool {
    t.len() > 0 && trim(t) == t && !t.contains(',')
}

proof fn lemma_split_on_nonempty(s: Seq<char>, sep: char)
    ensures
        split_on(s, sep).len() >= 1,
    decreases s.len(),
{
    if s.len() > 0 {
        lemma_split_on_nonempty(s.drop_last(), sep);
    }
}

/// Appending comma-free text extends the last piece.
proof fn lemma_split_append(p: Seq<char>, y: Seq<char>)
    requires
        !y.contains(','),
    ensures
        split_on(p + y, ',') == split_on(p, ',').update(
            split_on(p, ',').len() - 1,
            split_on(p, ',').last() + y,
        ),
    decreases y.len(),
{
    lemma_split_on_nonempty(p, ',');
    let sp = split_on(p, ',');
    if y.len() == 0 {
        assert(p + y =~= p);
        assert(sp.last() + y =~= sp.last());
        assert(sp.update(sp.len() - 1, sp.last()) =~= sp);
    } else {
        let y1 = y.drop_last();
        assert(!y1.contains(',')) by {
            if y1.contains(',') {
                let k = choose|k: int| 0 <= k < y1.len() && y1[k] == ',';
                assert(y[k] == ',');
            }
        }
        lemma_split_append(p, y1);
        assert((p + y).drop_last() =~= p + y1);
        assert(y.contains(y.last())) by {
            assert(y[y.len() - 1] == y.last());
        }
        assert((p + y).last() == y.last());
        let prev = split_on(p + y1, ',');
        assert(split_on(p + y, ',') == prev.update(prev.len() - 1, prev.last().push(y.last())));
        assert(prev.len() == sp.len());
        assert(prev.last() == sp.last() + y1);
        assert((sp.last() + y1).push(y.last()) =~= sp.last() + y);
        assert(prev.update(prev.len() - 1, prev.last().push(y.last())) =~= sp.update(sp.len() - 1, sp.last() + y));
    }
}

/// The pieces of a joined tag list: the first tag, then each other tag
/// after a space.
pub open spec fn joined_pieces(tags: Seq<Seq<char>>) -> Seq<Seq<char>> {
    Seq::new(tags.len(), |i: int| if i == 0 { tags[0] } else { seq![' '] + tags[i] })
}

proof fn lemma_split_join(tags: Seq<Seq<char>>)
    requires
        tags.len() >= 1,
        forall|i: int| 0 <= i < tags.len() ==> !(#[trigger] tags[i]).contains(','),
    ensures
        split_on(join(tags, ", "@), ',') == joined_pieces(tags),
    decreases tags.len(),
{
    reveal_strlit(", ");
    if tags.len() == 1 {
        let e = Seq::<char>::empty();
        lemma_split_append(e, tags[0]);
        assert(e + tags[0] =~= tags[0]);
        assert(split_on(e, ',') =~= seq![e]);
        assert(seq![e].update(0, e + tags[0]) =~= joined_pieces(tags));
    } else {
        let init = tags.drop_last();
        let t = tags.last();
        assert(!t.contains(',')) by {
            assert(t == tags[tags.len() - 1]);
        }
        lemma_split_join(init);
        let j = join(init, ", "@);
        assert(join(tags, ", "@) == j + ", "@ + t);
        assert(j + ", "@ + t =~= (j + seq![',']) + (seq![' '] + t));
        assert(!(seq![' '] + t).contains(',')) by {
            if (seq![' '] + t).contains(',') {
                let k = choose|k: int| 0 <= k < (seq![' '] + t).len() && (seq![' '] + t)[k] == ',';
                assert(t[k - 1] == ',');
            }
        }
        lemma_split_append(j + seq![','], seq![' '] + t);
        assert((j + seq![',']).drop_last() =~= j);
        let sj = split_on(j + seq![','], ',');
        assert(sj == split_on(j, ',').push(Seq::empty()));
        assert(sj.last() + (seq![' '] + t) =~= seq![' '] + t);
        assert(sj.update(sj.len() - 1, seq![' '] + t) =~= joined_pieces(tags));
    }
}

proof fn lemma_trim_after_space(t: Seq<char>)
    ensures
        trim(seq![' '] + t) == trim(t),
{
    let s = seq![' '] + t;
    assert(is_white_space(s[0]));
    assert(s.drop_first() =~= t);
}

proof fn lemma_kept_joined(tags: Seq<Seq<char>>)
    requires
        tags.len() >= 1,
        forall|i: int| 0 <= i < tags.len() ==> clean_tag(#[trigger] tags[i]),
    ensures
        kept_tags(joined_pieces(tags)) == tags,
    decreases tags.len(),
{
    let p = joined_pieces(tags);
    if tags.len() == 1 {
        assert(clean_tag(tags[0]));
        assert(p.drop_last() =~= Seq::<Seq<char>>::empty());
        assert(kept_tags(Seq::<Seq<char>>::empty()) == Seq::<Seq<char>>::empty());
        assert(p.last() == tags[0]);
        assert(kept_tags(p) == Seq::<Seq<char>>::empty().push(tags[0]));
        assert(Seq::<Seq<char>>::empty().push(tags[0]) =~= tags);
    } else {
        let init = tags.drop_last();
        assert forall|i: int| 0 <= i < init.len() implies clean_tag(#[trigger] init[i]) by {
            assert(init[i] == tags[i]);
        }
        lemma_kept_joined(init);
        assert(p.drop_last() =~= joined_pieces(init));
        let t = tags.last();
        assert(clean_tag(tags[tags.len() - 1]));
        lemma_trim_after_space(t);
        assert(p.last() == seq![' '] + t);
        assert(kept_tags(p) == kept_tags(p.drop_last()).push(trim(p.last())));
        assert(init.push(t) =~= tags);
    }
}

/// Joining clean tags with ", " (as the edit form shows them) and parsing
/// the text again gives back the same tags.
pub proof fn law_parse_undoes_join(tags: Seq<Seq<char>>)
    requires
        forall|i: int| 0 <= i < tags.len() ==> clean_tag(#[trigger] tags[i]),
    ensures
        parse_tags(join(tags, ", "@)) == tags,
{
    if tags.len() == 0 {
        let e = Seq::<char>::empty();
        assert(join(tags, ", "@) == e);
        assert(split_on(e, ',') =~= seq![e]);
        assert(seq![e].drop_last() =~= Seq::<Seq<char>>::empty());
        assert(trim_start(e) == e);
        assert(trim(e) == e);
        assert(kept_tags(Seq::<Seq<char>>::empty()) == Seq::<Seq<char>>::empty());
        assert(kept_tags(seq![e]) == kept_tags(seq![e].drop_last()));
        assert(tags =~= Seq::<Seq<char>>::empty());
    } else {
        assert forall|i: int| 0 <= i < tags.len() implies !(#[trigger] tags[i]).contains(',') by {
            assert(clean_tag(tags[i]));
        }
        lemma_split_join(tags);
        lemma_kept_joined(tags);
    }
}

// ---------------------------------------------------------------------------
// Deleting a word backwards.
// ---------------------------------------------------------------------------

/// `s` without its trailing spaces.
pub open spec fn strip_spaces_end(s: Seq<char>) -> Seq<char>
    decreases s.len(),
{
    if s.len() > 0 && s.last() == ' ' {
        strip_spaces_end(s.drop_last())
    } else {
        s
    }
}

/// `s` without its trailing run of non-space characters.
pub open spec fn strip_word_end(s: Seq<char>) -> Seq<char>
    decreases s.len(),
{
    if s.len() > 0 && s.last() != ' ' {
        strip_word_end(s.drop_last())
    } else {
        s
    }
}

// ---------------------------------------------------------------------------
// The form.
// ---------------------------------------------------------------------------

/// The task the form describes, with status `status`.
pub open spec fn form_item(v: AppView, status: Status) -> ItemView {
    ItemView {
        title: trim(v.form_title),
        description: trim(v.form_description),
        priority: v.form_priority,
        status,
        tags: parse_tags(v.form_tags),
    }
}

/// The status a created task gets: that of the focused board column on the
/// board, todo in the table.
pub open spec fn new_task_status(v: AppView) -> Status {
    if v.view_mode == ViewMode::Kanban {
        kanban_status(v.kanban_col)
    } else {
        Status::Todo
    }
}

/// The task list once the form is committed: the edited task replaced
/// (keeping its status), or the new task appended. A blank title, or an
/// edited position past the list, changes nothing.
pub open spec fn committed_items(v: AppView) -> Seq<ItemView> {
    if trim(v.form_title).len() == 0 {
        v.items
    } else {
        match v.form_edit_idx {
            Some(e) => if e < v.items.len() {
                v.items.update(e as int, form_item(v, v.items[e as int].status))
            } else {
                v.items
            },
            None => v.items.push(form_item(v, new_task_status(v))),
        }
    }
}

/// The effect of `commit_form`. A blank title keeps the form open and
/// changes nothing. Otherwise the form closes; an edit replaces the task
/// and reports "Task updated"; a creation appends the task, selects the last
/// visible row and reports "Task created".
pub open spec fn commit_post(pre: AppView, post: AppView) -> bool {
    if trim(pre.form_title).len() == 0 {
        post == pre
    } else {
        let closed = AppView { form_edit_idx: None, mode: AppMode::Normal, ..pre };
        match pre.form_edit_idx {
            Some(e) => if e < pre.items.len() {
                refreshed(with_message(AppView { items: committed_items(pre), ..closed }, "Task updated"@), post)
            } else {
                post == closed
            },
            None => {
                let n = post.cache.filtered.len();
                &&& fresh(post)
                &&& post == with_message(
                    AppView {
                        items: committed_items(pre),
                        selected: Some(if n == 0 { 0 } else { (n - 1) as usize }),
                        cache: post.cache,
                        ..closed
                    },
                    "Task created"@,
                )
            },
        }
    }
}

/// The view with an empty form open for a new task.
pub open spec fn create_modal_spec(v: AppView) -> AppView {
    AppView {
        form_title: Seq::empty(),
        form_description: Seq::empty(),
        form_tags: Seq::empty(),
        form_priority: Priority::Medium,
        form_field: FormField::Title,
        form_edit_idx: None,
        mode: AppMode::Creating,
        ..v
    }
}

/// The effect of `open_edit_modal`: the form filled from the selected task
/// (its tags joined with ", "); nothing without a selection.
pub open spec fn edit_modal_post(pre: AppView, post: AppView) -> bool {
    match selected_real(pre) {
        None => post == pre,
        Some(r) => {
            let it = pre.items[r as int];
            post == AppView {
                form_title: it.title,
                form_description: it.description,
                form_priority: it.priority,
                form_tags: join(it.tags, ", "@),
                form_field: FormField::Title,
                form_edit_idx: Some(r),
                mode: AppMode::Editing,
                ..pre
            }
        },
    }
}

/// A task that comes back unchanged from the edit form: a non-blank title
/// and a description without surrounding whitespace, and clean tags.
pub open spec fn clean_task(it: ItemView) -> bool {
    &&& it.title.len() > 0
    &&& trim(it.title) == it.title
    &&& trim(it.description) == it.description
    &&& forall|i: int| 0 <= i < it.tags.len() ==> clean_tag(#[trigger] it.tags[i])
}

/// Opening the selected task in the form and saving it unchanged leaves
/// the task list as it was (for a clean task) and closes the form.
pub proof fn law_edit_round_trip(a: AppView, b: AppView, c: AppView)
    requires
        selection_in_range(a),
        selected_real(a) matches Some(r) && clean_task(a.items[r as int]),
        edit_modal_post(a, b),
        commit_post(b, c),
    ensures
        c.items == a.items,
        c.mode == AppMode::Normal,
{
    let r = selected_real(a)->0;
    let it = a.items[r as int];
    law_parse_undoes_join(it.tags);
    assert(b.form_edit_idx == Some(r));
    assert(b.items == a.items);
    assert(trim(b.form_title).len() > 0);
    assert(form_item(b, it.status) == it);
    assert(committed_items(b) =~= a.items);
}

// ---------------------------------------------------------------------------
// The tag filter.
// ---------------------------------------------------------------------------

/// `s` without a leading '#'.
pub open spec fn strip_hash(s: Seq<char>) -> Seq<char> {
    if s.len() > 0 && s[0] == '#' {
        s.drop_first()
    } else {
        s
    }
}

/// The first position at or after `k` of the tag named `t` in the table,
/// or -1.
pub open spec fn tag_position_from(tags: Seq<(Seq<char>, usize)>, t: Seq<char>, k: int) -> int
    decreases tags.len() - k,
{
    if k < 0 || k >= tags.len() {
        -1
    } else if tags[k].0 == t {
        k
    } else {
        tag_position_from(tags, t, k + 1)
    }
}

/// The filter and message after stepping the tag filter: from no filter, or
/// from a filter that names no tag of the table, to the first tag; from a
/// tag to the next one; from the last tag to no filter.
pub open spec fn tag_step(v: AppView) -> (Option<Seq<char>>, Seq<char>) {
    let tags = v.cache.tags;
    let p = match v.tag_filter {
        Some(curr) => tag_position_from(tags, strip_hash(curr), 0),
        None => -1,
    };
    if p < 0 {
        (Some("#"@ + tags[0].0), "Filter: #"@ + tags[0].0)
    } else if p + 1 < tags.len() {
        (Some("#"@ + tags[p + 1].0), "Filter: #"@ + tags[p + 1].0)
    } else {
        (None, "Filter cleared"@)
    }
}

/// The effect of `cycle_tag_filter`: with no tags, the filter is dropped and
/// a message says so; otherwise the filter steps through the tag table (see
/// `tag_step`), the caches are refreshed and the first row selected.
pub open spec fn cycle_tag_post(pre: AppView, post: AppView) -> bool {
    if pre.cache.tags.len() == 0 {
        post == with_message(AppView { tag_filter: None, ..pre }, "No tags available to filter"@)
    } else {
        refreshed(with_message(AppView { tag_filter: tag_step(pre).0, selected: Some(0), ..pre }, tag_step(pre).1), post)
    }
}

/// The effect of `clear_filter`: back to all tasks with no search filter,
/// the caches refreshed and the first row selected; nothing when that is
/// already the view.
pub open spec fn clear_filter_post(pre: AppView, post: AppView) -> bool {
    if pre.tag_filter is None && pre.nav_section == NavSection::All {
        post == pre
    } else {
        refreshed(
            with_message(
                AppView {
                    tag_filter: None,
                    nav_section: NavSection::All,
                    nav_index: if pre.nav_section != NavSection::All {
                        0
                    } else {
                        pre.nav_index
                    },
                    selected: Some(0),
                    ..pre
                },
                "Filter reset to All Tasks"@,
            ),
            post,
        )
    }
}

/// The tag table names each tag once.
proof fn lemma_tag_names_distinct(items: Seq<ItemView>, tags: Seq<(Seq<char>, usize)>, j: int, k: int)
    requires
        tag_table_ok(items, tags),
        0 <= j < k < tags.len(),
    ensures
        tags[j].0 != tags[k].0,
{
    assert(tags[j].1 == crate::tags::tag_total(items, tags[j].0));
    assert(tags[k].1 == crate::tags::tag_total(items, tags[k].0));
    lemma_seq_lt_irreflexive(tags[j].0);
}

proof fn lemma_position_found(tags: Seq<(Seq<char>, usize)>, t: Seq<char>, i: int, k: int)
    requires
        0 <= i <= k < tags.len(),
        tags[k].0 == t,
        forall|j: int| i <= j < k ==> (#[trigger] tags[j]).0 != t,
    ensures
        tag_position_from(tags, t, i) == k,
    decreases k - i,
{
    if i < k {
        lemma_position_found(tags, t, i + 1, k);
    }
}

/// With fresh caches, `t` steps through the tag table in order: from the
/// filter `#` and the k-th tag to the next tag, and from the last tag to no
/// filter.
pub proof fn law_tag_filter_steps(v: AppView, k: int)
    requires
        fresh(v),
        0 <= k < v.cache.tags.len(),
        v.tag_filter == Some("#"@ + v.cache.tags[k].0),
    ensures
        k + 1 < v.cache.tags.len() ==> tag_step(v).0 == Some("#"@ + v.cache.tags[k + 1].0),
        k + 1 == v.cache.tags.len() ==> tag_step(v).0 is None,
{
    reveal_strlit("#");
    let tags = v.cache.tags;
    let t = tags[k].0;
    assert(strip_hash("#"@ + t) =~= t);
    assert forall|j: int| 0 <= j < k implies (#[trigger] tags[j]).0 != t by {
        lemma_tag_names_distinct(v.items, tags, j, k);
    }
    lemma_position_found(tags, t, 0, k);
}

/// `s` without a leading '#'.
fn strip_hash_string(s: &String) -> (r: String)
    ensures
        r@ == strip_hash(s@),
{
    let c = to_chars(s.as_str());
    if c.len() > 0 && c[0] == '#' {
        let rest = slice_chars(&c, 1, c.len());
        assert(rest@ =~= c@.drop_first());
        from_chars(rest.as_slice())
    } else {
        from_chars(c.as_slice())
    }
}

/// The position of the tag named `t` in the table.
fn find_tag(tags: &[(String, usize)], t: &String) -> (r: Option<usize>)
    ensures
        match r {
            Some(p) => p as int == tag_position_from(tag_table_view(tags@), t@, 0) && p < tags@.len(),
            None => tag_position_from(tag_table_view(tags@), t@, 0) < 0,
        },
{
    let ghost v = tag_table_view(tags@);
    let mut k: usize = 0;
    while k < tags.len()
        invariant
            k <= tags@.len(),
            v == tag_table_view(tags@),
            tag_position_from(v, t@, 0) == tag_position_from(v, t@, k as int),
        decreases tags@.len() - k,
    {
        if tags[k].0 == *t {
            return Some(k);
        }
        k = k + 1;
    }
    None
}

impl App {
    /// Opens an empty form for a new task.
    pub fn open_create_modal(&mut self)
        ensures
            final(self)@ == create_modal_spec(old(self)@),
    {
        self.form_title = String::new();
        self.form_description = String::new();
        self.form_tags = String::new();
        self.form_priority = Priority::Medium;
        self.form_field = FormField::Title;
        self.form_edit_idx = None;
        self.mode = AppMode::Creating;
    }

    /// Opens the form on the selected task, its tags joined with ", ".
    pub fn open_edit_modal(&mut self)
        requires
            old(self)@.kanban_col < 3,
            selection_in_range(old(self)@),
        ensures
            edit_modal_post(old(self)@, final(self)@),
    {
        if let Some(r) = self.get_selected_real_index() {
            let title = self.items[r].title.clone();
            let description = self.items[r].description.clone();
            let priority = self.items[r].priority;
            let tags = join_tags(&self.items[r].tags);
            self.form_title = title;
            self.form_description = description;
            self.form_priority = priority;
            self.form_tags = tags;
            self.form_field = FormField::Title;
            self.form_edit_idx = Some(r);
            self.mode = AppMode::Editing;
        }
    }

    /// The form's task with status `status`, from the trimmed title and
    /// description and the parsed tags.
    fn form_task(&self, title: &Vec<char>, description: &Vec<char>, status: Status) -> (r: Item)
        requires
            title@ == trim(self@.form_title),
            description@ == trim(self@.form_description),
        ensures
            r@ == form_item(self@, status),
    {
        let tags = parse_tag_list(self.form_tags.as_str());
        let mut it = Item::new(from_chars(title.as_slice()), tags);
        it.description = from_chars(description.as_slice());
        it.priority = self.form_priority;
        it.status = status;
        it
    }

    /// Replaces task `e` by the form's task, keeping its status.
    fn commit_edit(&mut self, e: usize, title: &Vec<char>, description: &Vec<char>)
        requires
            wf(old(self)@),
            e < old(self)@.items.len(),
            old(self)@.form_edit_idx == Some(e),
            title@ == trim(old(self)@.form_title),
            title@.len() > 0,
            description@ == trim(old(self)@.form_description),
            within_limits(committed_items(old(self)@)),
        ensures
            refreshed(
                with_message(AppView { items: committed_items(old(self)@), ..old(self)@ }, "Task updated"@),
                final(self)@,
            ),
            cache_in_range(final(self)@),
    {
        let it = self.form_task(title, description, self.items[e].status);
        let ghost items = self.items@;
        let _old = self.items.remove(e);
        self.items.insert(e, it);
        proof {
            assert(self.items@ =~= items.update(e as int, it));
            assert(items_view(self.items@) =~= committed_items(old(self)@));
        }
        self.refresh_cache();
        self.set_status_message(owned("Task updated"));
    }

    /// Appends the form's task and selects the last visible row.
    fn commit_create(&mut self, title: &Vec<char>, description: &Vec<char>)
        requires
            wf(old(self)@),
            old(self)@.form_edit_idx is None,
            title@ == trim(old(self)@.form_title),
            title@.len() > 0,
            description@ == trim(old(self)@.form_description),
            within_limits(committed_items(old(self)@)),
        ensures
            fresh(final(self)@),
            cache_in_range(final(self)@),
            final(self)@ == with_message(
                AppView {
                    items: committed_items(old(self)@),
                    selected: Some(
                        if final(self)@.cache.filtered.len() == 0 {
                            0
                        } else {
                            (final(self)@.cache.filtered.len() - 1) as usize
                        },
                    ),
                    cache: final(self)@.cache,
                    ..old(self)@
                },
                "Task created"@,
            ),
    {
        let status = if self.view_mode == ViewMode::Kanban {
            if self.kanban_col == 0 {
                Status::Todo
            } else if self.kanban_col == 1 {
                Status::InProgress
            } else {
                Status::Complete
            }
        } else {
            Status::Todo
        };
        let it = self.form_task(title, description, status);
        self.items.push(it);
        proof {
            assert(items_view(self.items@) =~= committed_items(old(self)@));
        }
        self.refresh_cache();
        let n = self.get_filtered_indices().len();
        self.selected = Some(n.saturating_sub(1));
        self.set_status_message(owned("Task created"));
    }

    /// Saves the form (see `commit_post`).
    pub fn commit_form(&mut self)
        requires
            wf(old(self)@),
            within_limits(committed_items(old(self)@)),
        ensures
            commit_post(old(self)@, final(self)@),
            wf(final(self)@),
    {
        let title_chars = to_chars(self.form_title.as_str());
        let title = trim_chars(&title_chars);
        if title.len() == 0 {
            return ;
        }
        let desc_chars = to_chars(self.form_description.as_str());
        let description = trim_chars(&desc_chars);
        match self.form_edit_idx {
            Some(e) => {
                if e < self.items.len() {
                    self.commit_edit(e, &title, &description);
                }
            },
            None => {
                self.commit_create(&title, &description);
            },
        }
        self.form_edit_idx = None;
        self.mode = AppMode::Normal;
    }

    /// The filter and message of `tag_step`, as strings.
    fn tag_step_values(&self) -> (r: (Option<String>, String))
        requires
            self@.cache.tags.len() > 0,
        ensures
            crate::filter::filter_view(r.0) == tag_step(self@).0,
            r.1@ == tag_step(self@).1,
    {
        let tags = self.cache.tags();
        let pos = match &self.tag_filter {
            Some(curr) => find_tag(tags, &strip_hash_string(curr)),
            None => None,
        };
        match pos {
            Some(p) => if p < tags.len() - 1 {
                let name = tags[p + 1].0.as_str();
                (Some(concat2("#", name)), concat2("Filter: #", name))
            } else {
                (None, owned("Filter cleared"))
            },
            None => {
                let name = tags[0].0.as_str();
                (Some(concat2("#", name)), concat2("Filter: #", name))
            },
        }
    }

    /// Steps the search filter through the tag table (see `cycle_tag_post`).
    pub fn cycle_tag_filter(&mut self)
        requires
            wf(old(self)@),
        ensures
            cycle_tag_post(old(self)@, final(self)@),
            wf(final(self)@),
    {
        if self.cache.tags().len() == 0 {
            self.tag_filter = None;
            self.set_status_message(owned("No tags available to filter"));
            return ;
        }
        let (filter, msg) = self.tag_step_values();
        self.tag_filter = filter;
        self.set_status_message(msg);
        self.refresh_cache();
        self.selected = Some(0);
    }

    /// Goes back to all tasks with no search filter.
    pub fn clear_filter(&mut self)
        requires
            wf(old(self)@),
        ensures
            clear_filter_post(old(self)@, final(self)@),
            wf(final(self)@),
    {
        let mut cleared = false;
        if self.tag_filter.is_some() {
            self.tag_filter = None;
            cleared = true;
        }
        if self.nav_section != NavSection::All {
            self.nav_section = NavSection::All;
            self.nav_index = 0;
            cleared = true;
        }
        if cleared {
            self.set_status_message(owned("Filter reset to All Tasks"));
            self.refresh_cache();
            self.selected = Some(0);
        }
    }

    /// Every tag with its number of uses, most used first.
    pub fn all_tags_with_counts(&self) -> (r: &[(String, usize)])
        ensures
            tag_table_view(r@) == self@.cache.tags,
    {
        self.cache.tags()
    }

    /// The workspace counts.
    pub fn stats(&self) -> (r: WorkspaceStats)
        ensures
            r == self@.cache.stats,
    {
        self.cache.stats()
    }

    /// Deletes the word before the end of `buffer`, with the spaces after
    /// it.
    pub fn delete_word_back(buffer: &mut String)
        ensures
            final(buffer)@ == strip_word_end(strip_spaces_end(old(buffer)@)),
    {
        let c = to_chars(buffer.as_str());
        let mut end = c.len();
        assert(c@.take(c@.len() as int) =~= c@);
        while end > 0 && c[end - 1] == ' '
            invariant
                end <= c@.len(),
                strip_spaces_end(c@.take(end as int)) == strip_spaces_end(c@),
            decreases end,
        {
            assert(c@.take(end as int).drop_last() == c@.take(end - 1));
            end = end - 1;
        }
        assert(strip_spaces_end(c@.take(end as int)) == c@.take(end as int));
        let ghost spaced = c@.take(end as int);
        while end > 0 && c[end - 1] != ' '
            invariant
                end <= c@.len(),
                spaced.len() <= c@.len(),
                spaced == c@.take(spaced.len() as int),
                end <= spaced.len(),
                strip_word_end(c@.take(end as int)) == strip_word_end(spaced),
            decreases end,
        {
            assert(c@.take(end as int).drop_last() == c@.take(end - 1));
            end = end - 1;
        }
        assert(strip_word_end(c@.take(end as int)) == c@.take(end as int));
        let kept = slice_chars(&c, 0, end);
        assert(kept@ == c@.take(end as int));
        *buffer = from_chars(kept.as_slice());
    }
}

} // verus!
