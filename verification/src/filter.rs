//! Which tasks a view shows and in what order: case-insensitive matching,
//! the navigator sections, the search query and the sort modes.
use vstd::prelude::*;
use vstd::utf8::is_ascii_chars;
use crate::app::{NavSection, SortMode};
use vstd::string::{is_ascii_spec_bytes, StringSliceAdditionalSpecFns};
use vstd::utf8::{char_u32_cast, is_ascii_chars_nat_bound};
use crate::chars::{
    ascii_lower, ascii_lower_char, contains_chars, contains_seq, lower_text, occurs_at, to_chars,
    to_lowercase, trim, trim_chars,
};
use crate::models::item::{Item, ItemView, items_view};
use crate::models::priority::{Priority, priority_label, priority_rank};
use crate::models::status::{Status, status_label, status_rank};

verus! {

// ---------------------------------------------------------------------------
// Case-insensitive containment.
// ---------------------------------------------------------------------------

/// Case-insensitive containment: the lowercase form of `needle` occurs in
/// the lowercase form of `hay`, both as `str::to_lowercase` gives them. An
/// empty needle always occurs.
pub open spec fn contains_ci(hay: Seq<char>, needle: Seq<char>) -> bool {
    contains_seq(lower_text(hay), lower_text(needle))
}

/// ASCII case folding of one character, as a code point.
spec fn fold_ascii(c: char) -> u32 {
    let u = c as u32;
    if 65 <= u <= 90 {
        (u + 32) as u32
    } else {
        u
    }
}

/// `needle` matches `hay` at `i` ignoring ASCII case.
spec fn ascii_ci_at(hay: Seq<char>, needle: Seq<char>, i: int) -> bool {
    &&& 0 <= i
    &&& i + needle.len() <= hay.len()
    &&& forall|k: int| 0 <= k < needle.len() ==> fold_ascii(#[trigger] hay[i + k]) == fold_ascii(needle[k])
}

proof fn lemma_fold_is_lower(c: char)
    ensures
        fold_ascii(c) == ascii_lower_char(c) as u32,
{
}

/// Two characters fold to the same code point exactly when their ASCII
/// lowercase forms are equal.
proof fn lemma_fold_eq(a: char, b: char)
    ensures
        (fold_ascii(a) == fold_ascii(b)) == (ascii_lower_char(a) == ascii_lower_char(b)),
{
    lemma_fold_is_lower(a);
    lemma_fold_is_lower(b);
    if fold_ascii(a) == fold_ascii(b) {
        let u = fold_ascii(a);
        char_u32_cast(ascii_lower_char(a), u);
        char_u32_cast(ascii_lower_char(b), u);
    }
}

/// Matching with ASCII case folding at `i` is matching the ASCII lowercase
/// forms there.
proof fn lemma_ascii_match(hay: Seq<char>, needle: Seq<char>, i: int)
    ensures
        ascii_ci_at(hay, needle, i) == occurs_at(ascii_lower(hay), ascii_lower(needle), i),
{
    let lh = ascii_lower(hay);
    let ln = ascii_lower(needle);
    if 0 <= i && i + needle.len() <= hay.len() {
        if ascii_ci_at(hay, needle, i) {
            assert forall|k: int| 0 <= k < needle.len() implies #[trigger] lh.subrange(
                i,
                i + needle.len(),
            )[k] == ln[k] by {
                lemma_fold_eq(hay[i + k], needle[k]);
            }
            assert(lh.subrange(i, i + needle.len()) =~= ln);
        }
        if occurs_at(lh, ln, i) {
            assert forall|k: int| 0 <= k < needle.len() implies fold_ascii(#[trigger] hay[i + k])
                == fold_ascii(needle[k]) by {
                assert(lh.subrange(i, i + needle.len())[k] == ln[k]);
                lemma_fold_eq(hay[i + k], needle[k]);
            }
        }
    }
}

/// ASCII case folding of one byte.
spec fn fold_byte(b: u8) -> u8 {
    if 65 <= b <= 90 {
        (b + 32) as u8
    } else {
        b
    }
}

/// The bytes `needle` match `hay` at `i` ignoring ASCII case.
spec fn ascii_ci_bytes_at(hay: Seq<u8>, needle: Seq<u8>, i: int) -> bool {
    &&& 0 <= i
    &&& i + needle.len() <= hay.len()
    &&& forall|k: int| 0 <= k < needle.len() ==> fold_byte(#[trigger] hay[i + k]) == fold_byte(needle[k])
}

/// An ASCII character and its byte fold alike.
proof fn lemma_fold_byte(c: char)
    requires
        (c as u32) < 128,
    ensures
        fold_byte(c as u8) as u32 == fold_ascii(c),
{
    let u = c as u32;
    assert(u < 128 ==> (u as u8) as u32 == u) by (bit_vector);
    assert(c as u8 == u as u8);
}

/// On ASCII text, matching the bytes ignoring ASCII case at `i` is matching
/// the characters so.
proof fn lemma_bytes_match(hay: &str, needle: &str, i: int)
    requires
        is_ascii_chars(hay@),
        is_ascii_chars(needle@),
    ensures
        ascii_ci_bytes_at(hay.spec_bytes(), needle.spec_bytes(), i) == ascii_ci_at(hay@, needle@, i),
{
    is_ascii_spec_bytes(hay);
    is_ascii_spec_bytes(needle);
    is_ascii_chars_nat_bound(hay@);
    is_ascii_chars_nat_bound(needle@);
    let hb = hay.spec_bytes();
    let nb = needle.spec_bytes();
    if 0 <= i && i + needle@.len() <= hay@.len() {
        assert forall|k: int| 0 <= k < needle@.len() implies (fold_byte(#[trigger] hb[i + k]) == fold_byte(nb[k]))
            == (fold_ascii(hay@[i + k]) == fold_ascii(needle@[k])) by {
            lemma_fold_byte(hay@[i + k]);
            lemma_fold_byte(needle@[k]);
        }
        if ascii_ci_at(hay@, needle@, i) {
            assert forall|k: int| 0 <= k < nb.len() implies fold_byte(#[trigger] hb[i + k]) == fold_byte(nb[k]) by {
                assert(fold_ascii(hay@[i + k]) == fold_ascii(needle@[k]));
            }
        }
        if ascii_ci_bytes_at(hb, nb, i) {
            assert forall|k: int| 0 <= k < needle@.len() implies fold_ascii(#[trigger] hay@[i + k]) == fold_ascii(
                needle@[k],
            ) by {
                assert(fold_byte(hb[i + k]) == fold_byte(nb[k]));
            }
        }
    }
}

fn fold_u8(b: u8) -> (r: u8)
    ensures
        r == fold_byte(b),
{
    if 65 <= b && b <= 90 {
        b + 32
    } else {
        b
    }
}

/// `needle` matches `hay` at `i` ignoring ASCII case, byte by byte.
fn ascii_ci_matches_at(hay: &[u8], needle: &[u8], i: usize) -> (b: bool)
    requires
        i + needle@.len() <= hay@.len(),
    ensures
        b == ascii_ci_bytes_at(hay@, needle@, i as int),
{
    let m = needle.len();
    let n = hay.len();
    let mut k: usize = 0;
    while k < m
        invariant
            k <= m == needle@.len(),
            n == hay@.len(),
            i + m <= n,
            forall|j: int| 0 <= j < k ==> fold_byte(#[trigger] hay@[i + j]) == fold_byte(needle@[j]),
        decreases m - k,
    {
        if fold_u8(hay[i + k]) != fold_u8(needle[k]) {
            return false;
        }
        k = k + 1;
    }
    true
}

/// Whether `needle` occurs in `haystack`, ignoring case. Two ASCII strings
/// are compared in place, byte by byte, with ASCII case folding; otherwise
/// both are lowercased and searched.
pub fn contains_ignore_case(haystack: &str, needle: &str) -> (b: bool)
    ensures
        b == contains_ci(haystack@, needle@),
{
    if needle.is_empty() {
        proof {
            assert(ascii_lower(needle@) =~= needle@);
            assert(lower_text(haystack@).subrange(0, 0) =~= lower_text(needle@));
            assert(occurs_at(lower_text(haystack@), lower_text(needle@), 0));
        }
        return true;
    }
    if needle.is_ascii() && haystack.is_ascii() {
        let h = haystack.as_bytes();
        let n = needle.as_bytes();
        proof {
            is_ascii_spec_bytes(haystack);
            is_ascii_spec_bytes(needle);
        }
        let hl = h.len();
        let nl = n.len();
        if nl > hl {
            assert forall|i: int| !occurs_at(lower_text(haystack@), lower_text(needle@), i) by {}
            return false;
        }
        let last = hl - nl;
        let mut i: usize = 0;
        while i < last
            invariant
                nl <= hl,
                last == hl - nl,
                i <= last,
                hl == h@.len() == haystack@.len(),
                nl == n@.len() == needle@.len(),
                h@ == haystack.spec_bytes(),
                n@ == needle.spec_bytes(),
                is_ascii_chars(needle@),
                is_ascii_chars(haystack@),
                forall|j: int| 0 <= j < i ==> !ascii_ci_bytes_at(h@, n@, j),
            decreases last - i,
        {
            if ascii_ci_matches_at(h, n, i) {
                proof {
                    lemma_bytes_match(haystack, needle, i as int);
                    lemma_ascii_match(haystack@, needle@, i as int);
                }
                return true;
            }
            i = i + 1;
        }
        if ascii_ci_matches_at(h, n, last) {
            proof {
                lemma_bytes_match(haystack, needle, last as int);
                lemma_ascii_match(haystack@, needle@, last as int);
            }
            return true;
        }
        assert forall|j: int| !occurs_at(lower_text(haystack@), lower_text(needle@), j) by {
            lemma_bytes_match(haystack, needle, j);
            lemma_ascii_match(haystack@, needle@, j);
            if 0 <= j && j + nl <= hl {
                assert(j <= last);
            }
        }
        return false;
    }
    let hl = to_chars(to_lowercase(haystack).as_str());
    let nl = to_chars(to_lowercase(needle).as_str());
    contains_chars(&hl, &nl)
}

// ---------------------------------------------------------------------------
// Which tasks are visible.
// ---------------------------------------------------------------------------

/// The navigator section keeps the task.
pub open spec fn section_match(section: NavSection, it: ItemView) -> bool {
    match section {
        NavSection::All => true,
        NavSection::Todo => it.status == Status::Todo,
        NavSection::InProgress => it.status == Status::InProgress,
        NavSection::Complete => it.status == Status::Complete,
        NavSection::Urgent => it.priority == Priority::Urgent,
    }
}

/// Some tag of the task contains `q`, ignoring case.
pub open spec fn some_tag_matches(it: ItemView, q: Seq<char>) -> bool {
    exists|k: int| 0 <= k < it.tags.len() && contains_ci(#[trigger] it.tags[k], q)
}

/// A non-empty trimmed query keeps the task: `#x` searches the tags for
/// `x`; anything else searches the title, the description, the tags and the
/// priority and status labels.
pub open spec fn query_match(q: Seq<char>, it: ItemView) -> bool {
    if q[0] == '#' {
        some_tag_matches(it, q.drop_first())
    } else {
        ||| contains_ci(it.title, q)
        ||| contains_ci(it.description, q)
        ||| some_tag_matches(it, q)
        ||| contains_ci(priority_label(it.priority), q)
        ||| contains_ci(status_label(it.status), q)
    }
}

/// The task is shown under the section and the (optional) search filter.
pub open spec fn item_visible(section: NavSection, filter: Option<Seq<char>>, it: ItemView) -> bool {
    &&& section_match(section, it)
    &&& match filter {
        None => true,
        Some(f) => trim(f).len() == 0 || query_match(trim(f), it),
    }
}

/// The indices of the visible tasks, in list order.
pub open spec fn visible_indices(items: Seq<ItemView>, section: NavSection, filter: Option<Seq<char>>) -> Seq<usize>
    decreases items.len(),
{
    if items.len() == 0 {
        Seq::empty()
    } else {
        let prev = visible_indices(items.drop_last(), section, filter);
        if item_visible(section, filter, items.last()) {
            prev.push((items.len() - 1) as usize)
        } else {
            prev
        }
    }
}

/// The optional filter string as characters.
pub open spec fn filter_view(f: Option<String>) -> Option<Seq<char>> {
    match f {
        Some(s) => Some(s@),
        None => None,
    }
}

fn some_tag_contains(it: &Item, q: &str) -> (b: bool)
    ensures
        b == some_tag_matches(it@, q@),
{
    let mut k: usize = 0;
    while k < it.tags.len()
        invariant
            k <= it.tags@.len(),
            forall|j: int| 0 <= j < k ==> !contains_ci(#[trigger] it@.tags[j], q@),
        decreases it.tags@.len() - k,
    {
        if contains_ignore_case(it.tags[k].as_str(), q) {
            assert(it@.tags[k as int] == it.tags@[k as int]@);
            return true;
        }
        k = k + 1;
    }
    false
}

/// Whether a task is shown under `section` and the filter.
pub fn item_matches(it: &Item, section: NavSection, filter: &Option<String>) -> (b: bool)
    ensures
        b == item_visible(section, filter_view(*filter), it@),
{
    let section_ok = match section {
        NavSection::All => true,
        NavSection::Todo => it.status == Status::Todo,
        NavSection::InProgress => it.status == Status::InProgress,
        NavSection::Complete => it.status == Status::Complete,
        NavSection::Urgent => it.priority == Priority::Urgent,
    };
    if !section_ok {
        return false;
    }
    match filter {
        None => true,
        Some(f) => {
            let fc = to_chars(f.as_str());
            let q = trim_chars(&fc);
            if q.len() == 0 {
                return true;
            }
            if q[0] == '#' {
                let rest = crate::chars::slice_chars(&q, 1, q.len());
                assert(rest@ == q@.drop_first());
                let rest_s = crate::chars::from_chars(rest.as_slice());
                some_tag_contains(it, rest_s.as_str())
            } else {
                let qs = crate::chars::from_chars(q.as_slice());
                contains_ignore_case(it.title.as_str(), qs.as_str())
                    || contains_ignore_case(it.description.as_str(), qs.as_str())
                    || some_tag_contains(it, qs.as_str())
                    || contains_ignore_case(it.priority.label(), qs.as_str())
                    || contains_ignore_case(it.status.label(), qs.as_str())
            }
        },
    }
}

/// The visible task indices, in list order.
pub fn visible(items: &Vec<Item>, section: NavSection, filter: &Option<String>) -> (r: Vec<usize>)
    ensures
        r@ == visible_indices(items_view(items@), section, filter_view(*filter)),
{
    let mut r: Vec<usize> = Vec::new();
    let mut i: usize = 0;
    while i < items.len()
        invariant
            i <= items@.len(),
            r@ == visible_indices(items_view(items@).take(i as int), section, filter_view(*filter)),
        decreases items@.len() - i,
    {
        let ghost v = items_view(items@);
        assert(v.take(i + 1).drop_last() == v.take(i as int));
        if item_matches(&items[i], section, filter) {
            r.push(i);
        }
        i = i + 1;
    }
    assert(items_view(items@).take(items@.len() as int) == items_view(items@));
    r
}

// ---------------------------------------------------------------------------
// Ordering.
// ---------------------------------------------------------------------------

/// Lexicographic order on character sequences by code point (the order of
/// Rust's `String` comparison).
pub open spec fn seq_lt(a: Seq<char>, b: Seq<char>) -> bool
    decreases a.len(),
{
    if a.len() == 0 {
        b.len() > 0
    } else if b.len() == 0 {
        false
    } else if (a[0] as u32) < (b[0] as u32) {
        true
    } else if a[0] == b[0] {
        seq_lt(a.drop_first(), b.drop_first())
    } else {
        false
    }
}

pub proof fn lemma_seq_lt_irreflexive(a: Seq<char>)
    ensures
        !seq_lt(a, a),
    decreases a.len(),
{
    if a.len() > 0 {
        lemma_seq_lt_irreflexive(a.drop_first());
    }
}

pub proof fn lemma_seq_lt_transitive(a: Seq<char>, b: Seq<char>, c: Seq<char>)
    requires
        seq_lt(a, b),
        seq_lt(b, c),
    ensures
        seq_lt(a, c),
    decreases a.len(),
{
    if a.len() > 0 && b.len() > 0 && c.len() > 0 && a[0] == b[0] && b[0] == c[0] {
        lemma_seq_lt_transitive(a.drop_first(), b.drop_first(), c.drop_first());
    }
}

pub proof fn lemma_seq_lt_total(a: Seq<char>, b: Seq<char>)
    ensures
        a == b || seq_lt(a, b) || seq_lt(b, a),
    decreases a.len(),
{
    if a.len() > 0 && b.len() > 0 {
        if a[0] == b[0] {
            lemma_seq_lt_total(a.drop_first(), b.drop_first());
            if a.drop_first() == b.drop_first() {
                assert(a.drop_first().len() == a.len() - 1);
                assert(b.drop_first().len() == b.len() - 1);
                assert(a.len() == b.len());
                assert forall|k: int| 0 <= k < a.len() implies a[k] == b[k] by {
                    if k > 0 {
                        assert(a[k] == a.drop_first()[k - 1]);
                        assert(b[k] == b.drop_first()[k - 1]);
                    }
                }
                assert(a =~= b);
            }
        } else {
            let x = a[0] as u32;
            let y = b[0] as u32;
            vstd::utf8::char_u32_cast(a[0], x);
            vstd::utf8::char_u32_cast(b[0], y);
            assert(x != y);
        }
    } else if a.len() == 0 && b.len() == 0 {
        assert(a =~= b);
    }
}

pub proof fn lemma_seq_lt_asymmetric(a: Seq<char>, b: Seq<char>)
    requires
        seq_lt(a, b),
    ensures
        !seq_lt(b, a),
{
    if seq_lt(b, a) {
        lemma_seq_lt_transitive(a, b, a);
        lemma_seq_lt_irreflexive(a);
    }
}

/// The sort key of the title order: the title lowercased as `str::to_lowercase` does.
pub open spec fn title_key(it: ItemView) -> Seq<char> {
    lower_text(it.title)
}

/// Task `a` is listed before task `b` under the sort mode. Sorting is
/// stable, so ties keep list order.
pub open spec fn ranks_before(items: Seq<ItemView>, mode: SortMode, a: int, b: int) -> bool {
    match mode {
        SortMode::Natural => a < b,
        SortMode::Priority => {
            let ra = priority_rank(items[a].priority);
            let rb = priority_rank(items[b].priority);
            ra < rb || (ra == rb && a < b)
        },
        SortMode::Status => {
            let ra = status_rank(items[a].status);
            let rb = status_rank(items[b].status);
            ra < rb || (ra == rb && a < b)
        },
        SortMode::Title => {
            let ka = title_key(items[a]);
            let kb = title_key(items[b]);
            seq_lt(ka, kb) || (ka == kb && a < b)
        },
    }
}

/// `ranks_before` is a strict total order on positions.
pub proof fn lemma_ranks_before_order(items: Seq<ItemView>, mode: SortMode, a: int, b: int, c: int)
    ensures
        !ranks_before(items, mode, a, a),
        a != b ==> ranks_before(items, mode, a, b) || ranks_before(items, mode, b, a),
        ranks_before(items, mode, a, b) ==> !ranks_before(items, mode, b, a),
        ranks_before(items, mode, a, b) && ranks_before(items, mode, b, c) ==> ranks_before(
            items,
            mode,
            a,
            c,
        ),
{
    if mode == SortMode::Title {
        let ka = title_key(items[a]);
        let kb = title_key(items[b]);
        let kc = title_key(items[c]);
        lemma_seq_lt_irreflexive(ka);
        lemma_seq_lt_total(ka, kb);
        if seq_lt(ka, kb) {
            lemma_seq_lt_asymmetric(ka, kb);
        }
        if seq_lt(kb, ka) {
            lemma_seq_lt_asymmetric(kb, ka);
        }
        if ranks_before(items, mode, a, b) && ranks_before(items, mode, b, c) {
            if seq_lt(ka, kb) && seq_lt(kb, kc) {
                lemma_seq_lt_transitive(ka, kb, kc);
            }
        }
    }
}

/// `s` lists its elements in `ranks_before` order.
pub open spec fn sorted_by_rank(items: Seq<ItemView>, mode: SortMode, s: Seq<usize>) -> bool {
    forall|i: int, j: int|
        0 <= i < j < s.len() ==> ranks_before(items, mode, #[trigger] s[i] as int, #[trigger] s[j] as int)
}

/// `s` holds exactly the elements of `set`.
pub open spec fn same_elements(s: Seq<usize>, set: Seq<usize>) -> bool {
    &&& forall|k: int| 0 <= k < s.len() ==> set.contains(#[trigger] s[k])
    &&& forall|k: int| 0 <= k < set.len() ==> s.contains(#[trigger] set[k])
}

/// `s` is strictly increasing.
pub open spec fn increasing(s: Seq<usize>) -> bool {
    forall|i: int, j: int| 0 <= i < j < s.len() ==> #[trigger] s[i] < #[trigger] s[j]
}

pub proof fn lemma_visible_increasing(items: Seq<ItemView>, section: NavSection, filter: Option<Seq<char>>)
    requires
        items.len() <= usize::MAX,
    ensures
        increasing(visible_indices(items, section, filter)),
        forall|k: int|
            0 <= k < visible_indices(items, section, filter).len() ==> #[trigger] visible_indices(
                items,
                section,
                filter,
            )[k] < items.len(),
        forall|k: int|
            0 <= k < visible_indices(items, section, filter).len() ==> item_visible(
                section,
                filter,
                items[#[trigger] visible_indices(items, section, filter)[k] as int],
            ),
        forall|i: int|
            0 <= i < items.len() && item_visible(section, filter, items[i]) ==> visible_indices(
                items,
                section,
                filter,
            ).contains(i as usize),
    decreases items.len(),
{
    if items.len() > 0 {
        let d = items.drop_last();
        lemma_visible_increasing(d, section, filter);
        let prev = visible_indices(d, section, filter);
        let cur = visible_indices(items, section, filter);
        assert forall|a: int, b: int| 0 <= a < b < cur.len() implies #[trigger] cur[a] < #[trigger] cur[b] by {
            if b < prev.len() {
                assert(cur[a] == prev[a] && cur[b] == prev[b]);
            } else {
                assert(cur[a] == prev[a]);
                assert(prev[a] < d.len());
            }
        }
        assert forall|k: int| 0 <= k < cur.len() implies #[trigger] cur[k] < items.len() by {
            if k < prev.len() {
                assert(cur[k] == prev[k]);
            }
        }
        assert forall|i: int| 0 <= i < items.len() && item_visible(section, filter, items[i]) implies cur.contains(i as usize) by {
            if i < items.len() - 1 {
                assert(d[i] == items[i]);
                assert(prev.contains(i as usize));
                let k = choose|k: int| 0 <= k < prev.len() && prev[k] == i as usize;
                assert(cur[k] == i as usize);
            } else {
                assert(cur[cur.len() - 1] == i as usize);
            }
        }
        assert forall|k: int| 0 <= k < cur.len() implies item_visible(section, filter, items[#[trigger] cur[k] as int]) by {
            if k < prev.len() {
                assert(cur[k] == prev[k]);
                assert(prev[k] < d.len());
                assert(items[prev[k] as int] == d[prev[k] as int]);
                assert(item_visible(section, filter, d[prev[k] as int]));
            } else {
                assert(cur[k] == items.len() - 1);
                assert(items.last() == items[items.len() - 1]);
            }
        }
    }
}

/// Is task `a` listed before task `b`?
fn before(items: &Vec<Item>, keys: &Vec<Vec<char>>, mode: SortMode, a: usize, b: usize) -> (r: bool)
    requires
        a < items@.len(),
        b < items@.len(),
        keys@.len() == items@.len(),
        forall|i: int| 0 <= i < keys@.len() ==> (#[trigger] keys@[i])@ == title_key(items@[i]@),
    ensures
        r == ranks_before(items_view(items@), mode, a as int, b as int),
{
    match mode {
        SortMode::Natural => a < b,
        SortMode::Priority => {
            let ra = rank_of_priority(items[a].priority);
            let rb = rank_of_priority(items[b].priority);
            ra < rb || (ra == rb && a < b)
        },
        SortMode::Status => {
            let ra = rank_of_status(items[a].status);
            let rb = rank_of_status(items[b].status);
            ra < rb || (ra == rb && a < b)
        },
        SortMode::Title => {
            let lt = chars_lt(&keys[a], &keys[b]);
            let eq = chars_eq(&keys[a], &keys[b]);
            lt || (eq && a < b)
        },
    }
}

fn rank_of_priority(p: Priority) -> (r: u8)
    ensures
        r == priority_rank(p),
{
    match p {
        Priority::Urgent => 0,
        Priority::High => 1,
        Priority::Medium => 2,
        Priority::Low => 3,
    }
}

fn rank_of_status(s: Status) -> (r: u8)
    ensures
        r == status_rank(s),
{
    match s {
        Status::Todo => 0,
        Status::InProgress => 1,
        Status::Complete => 2,
    }
}

/// Equality of character vectors.
pub fn chars_eq(a: &Vec<char>, b: &Vec<char>) -> (r: bool)
    ensures
        r == (a@ == b@),
{
    if a.len() != b.len() {
        return false;
    }
    let mut i: usize = 0;
    while i < a.len()
        invariant
            i <= a@.len() == b@.len(),
            forall|j: int| 0 <= j < i ==> a@[j] == b@[j],
        decreases a@.len() - i,
    {
        if a[i] != b[i] {
            return false;
        }
        i = i + 1;
    }
    assert(a@ =~= b@);
    true
}

/// `seq_lt` over character vectors.
pub fn chars_lt(a: &Vec<char>, b: &Vec<char>) -> (r: bool)
    ensures
        r == seq_lt(a@, b@),
{
    let mut i: usize = 0;
    assert(a@.skip(0) == a@ && b@.skip(0) == b@);
    assert(a@.take(0) =~= b@.take(0));
    while i < a.len() && i < b.len() && a[i] == b[i]
        invariant
            i <= a@.len(),
            i <= b@.len(),
            a@.take(i as int) == b@.take(i as int),
            seq_lt(a@, b@) == seq_lt(a@.skip(i as int), b@.skip(i as int)),
        decreases a@.len() - i,
    {
        proof {
            let x = a@.skip(i as int);
            let y = b@.skip(i as int);
            assert(x.drop_first() == a@.skip(i + 1));
            assert(y.drop_first() == b@.skip(i + 1));
            assert(a@.take(i + 1) =~= a@.take(i as int).push(a@[i as int]));
            assert(b@.take(i + 1) =~= b@.take(i as int).push(b@[i as int]));
        }
        i = i + 1;
    }
    let ghost x = a@.skip(i as int);
    let ghost y = b@.skip(i as int);
    if i == a.len() {
        i < b.len()
    } else if i == b.len() {
        false
    } else {
        assert(x[0] == a@[i as int] && y[0] == b@[i as int]);
        (a[i] as u32) < (b[i] as u32)
    }
}

/// The lowercase titles of all tasks.
pub fn title_keys(items: &Vec<Item>) -> (r: Vec<Vec<char>>)
    ensures
        r@.len() == items@.len(),
        forall|i: int| 0 <= i < r@.len() ==> (#[trigger] r@[i])@ == title_key(items@[i]@),
{
    let mut r: Vec<Vec<char>> = Vec::new();
    let mut i: usize = 0;
    while i < items.len()
        invariant
            i <= items@.len(),
            r@.len() == i,
            forall|j: int| 0 <= j < i ==> (#[trigger] r@[j])@ == title_key(items@[j]@),
        decreases items@.len() - i,
    {
        let low = to_lowercase(items[i].title.as_str());
        r.push(to_chars(low.as_str()));
        i = i + 1;
    }
    r
}

/// Sorts the increasing index list `input` into `ranks_before` order.
pub fn sort_indices(items: &Vec<Item>, keys: &Vec<Vec<char>>, mode: SortMode, input: &Vec<usize>) -> (r: Vec<usize>)
    requires
        keys@.len() == items@.len(),
        forall|i: int| 0 <= i < keys@.len() ==> (#[trigger] keys@[i])@ == title_key(items@[i]@),
        increasing(input@),
        forall|k: int| 0 <= k < input@.len() ==> #[trigger] input@[k] < items@.len(),
    ensures
        sorted_by_rank(items_view(items@), mode, r@),
        same_elements(r@, input@),
        r@.len() == input@.len(),
{
    let ghost v = items_view(items@);
    let mut r: Vec<usize> = Vec::new();
    let mut i: usize = 0;
    while i < input.len()
        invariant
            i <= input@.len(),
            r@.len() == i,
            v == items_view(items@),
            keys@.len() == items@.len(),
            forall|i: int| 0 <= i < keys@.len() ==> (#[trigger] keys@[i])@ == title_key(items@[i]@),
            increasing(input@),
            forall|k: int| 0 <= k < input@.len() ==> #[trigger] input@[k] < items@.len(),
            sorted_by_rank(v, mode, r@),
            same_elements(r@, input@.take(i as int)),
        decreases input@.len() - i,
    {
        let x = input[i];
        let mut p: usize = 0;
        while p < r.len() && !before(items, keys, mode, x, r[p])
            invariant
                p <= r@.len(),
                x < items@.len(),
                keys@.len() == items@.len(),
                forall|i: int| 0 <= i < keys@.len() ==> (#[trigger] keys@[i])@ == title_key(items@[i]@),
                forall|k: int| 0 <= k < r@.len() ==> #[trigger] r@[k] < items@.len(),
                forall|q: int| 0 <= q < p ==> !ranks_before(v, mode, x as int, #[trigger] r@[q] as int),
                v == items_view(items@),
            decreases r@.len() - p,
        {
            p = p + 1;
        }
        let ghost old_r = r@;
        proof {
            // x is new: every element so far is an earlier, smaller input.
            assert forall|q: int| 0 <= q < old_r.len() implies #[trigger] old_r[q] != x by {
                assert(input@.take(i as int).contains(old_r[q]));
                let k = choose|k: int| 0 <= k < i && input@.take(i as int)[k] == old_r[q];
                assert(input@[k] < input@[i as int]);
            }
            assert forall|q: int| 0 <= q < p implies ranks_before(v, mode, #[trigger] old_r[q] as int, x as int) by {
                lemma_ranks_before_order(v, mode, x as int, old_r[q] as int, x as int);
            }
            assert forall|q: int| p <= q < old_r.len() implies ranks_before(v, mode, x as int, #[trigger] old_r[q] as int) by {
                assert(ranks_before(v, mode, x as int, old_r[p as int] as int));
                if q > p {
                    assert(ranks_before(v, mode, old_r[p as int] as int, old_r[q] as int));
                    lemma_ranks_before_order(v, mode, x as int, old_r[p as int] as int, old_r[q] as int);
                }
            }
        }
        r.insert(p, x);
        proof {
            let nr = r@;
            assert(nr == old_r.insert(p as int, x));
            assert forall|a: int, b: int| 0 <= a < b < nr.len() implies ranks_before(v, mode, #[trigger] nr[a] as int, #[trigger] nr[b] as int) by {
                if a < p && b < p {
                    assert(nr[a] == old_r[a] && nr[b] == old_r[b]);
                } else if a < p && b == p {
                    assert(nr[a] == old_r[a]);
                } else if a < p {
                    assert(nr[a] == old_r[a] && nr[b] == old_r[b - 1]);
                } else if a == p {
                    assert(nr[b] == old_r[b - 1]);
                } else {
                    assert(nr[a] == old_r[a - 1] && nr[b] == old_r[b - 1]);
                }
            }
            let tk = input@.take(i + 1);
            assert(tk == input@.take(i as int).push(x));
            assert forall|k: int| 0 <= k < nr.len() implies tk.contains(#[trigger] nr[k]) by {
                if k < p {
                    assert(nr[k] == old_r[k]);
                    assert(input@.take(i as int).contains(old_r[k]));
                    let j = choose|j: int| 0 <= j < i && input@.take(i as int)[j] == old_r[k];
                    assert(tk[j] == nr[k]);
                } else if k == p {
                    assert(tk[i as int] == x);
                } else {
                    assert(nr[k] == old_r[k - 1]);
                    assert(input@.take(i as int).contains(old_r[k - 1]));
                    let j = choose|j: int| 0 <= j < i && input@.take(i as int)[j] == old_r[k - 1];
                    assert(tk[j] == nr[k]);
                }
            }
            assert forall|k: int| 0 <= k < tk.len() implies nr.contains(#[trigger] tk[k]) by {
                if k < i {
                    assert(tk[k] == input@.take(i as int)[k]);
                    assert(old_r.contains(tk[k]));
                    let j = choose|j: int| 0 <= j < old_r.len() && old_r[j] == tk[k];
                    if j < p {
                        assert(nr[j] == tk[k]);
                    } else {
                        assert(nr[j + 1] == tk[k]);
                    }
                } else {
                    assert(nr[p as int] == x);
                }
            }
        }
        i = i + 1;
    }
    assert(input@.take(input@.len() as int) == input@);
    r
}

// ---------------------------------------------------------------------------
// Laws of the search.
// ---------------------------------------------------------------------------

/// On ASCII text case is ignored: containment is containment of the texts
/// with `A`–`Z` taken as `a`–`z`.
pub proof fn law_ascii_case_ignored(hay: Seq<char>, needle: Seq<char>)
    requires
        is_ascii_chars(hay),
        is_ascii_chars(needle),
    ensures
        contains_ci(hay, needle) == contains_seq(ascii_lower(hay), ascii_lower(needle)),
{
}

/// Under the "All" section, a non-empty trimmed query that does not start
/// with `#` shows a task exactly when, ignoring case, it occurs in the
/// title, in the description, in one of the tags, or in the priority or
/// status label. In particular a match in the description alone shows it.
pub proof fn law_plain_query_fields(f: Seq<char>, it: ItemView)
    requires
        trim(f).len() > 0,
        trim(f)[0] != '#',
    ensures
        item_visible(NavSection::All, Some(f), it) == (contains_ci(it.title, trim(f)) || contains_ci(
            it.description,
            trim(f),
        ) || (exists|k: int| 0 <= k < it.tags.len() && contains_ci(#[trigger] it.tags[k], trim(f)))
            || contains_ci(priority_label(it.priority), trim(f)) || contains_ci(status_label(it.status), trim(f))),
        contains_ci(it.description, trim(f)) ==> item_visible(NavSection::All, Some(f), it),
        contains_ci(it.title, trim(f)) ==> item_visible(NavSection::All, Some(f), it),
{
}

/// A trimmed query `#x` searches the tags only: under "All" a task is shown
/// exactly when one of its tags contains `x`, ignoring case.
pub proof fn law_hash_query_tags_only(f: Seq<char>, it: ItemView)
    requires
        trim(f).len() > 0,
        trim(f)[0] == '#',
    ensures
        item_visible(NavSection::All, Some(f), it) == (exists|k: int|
            0 <= k < it.tags.len() && contains_ci(#[trigger] it.tags[k], trim(f).drop_first())),
{
}

/// No filter, or one that is blank once trimmed, hides nothing; a section
/// keeps exactly its tasks, and a filter further narrows the section.
pub proof fn law_sections_and_blank_filter(f: Option<Seq<char>>, it: ItemView)
    ensures
        item_visible(NavSection::All, None, it),
        f matches Some(g) && trim(g).len() == 0 ==> item_visible(NavSection::All, f, it),
        item_visible(NavSection::Todo, f, it) == (it.status == Status::Todo && item_visible(NavSection::All, f, it)),
        item_visible(NavSection::InProgress, f, it) == (it.status == Status::InProgress && item_visible(
            NavSection::All,
            f,
            it,
        )),
        item_visible(NavSection::Complete, f, it) == (it.status == Status::Complete && item_visible(
            NavSection::All,
            f,
            it,
        )),
        item_visible(NavSection::Urgent, f, it) == (it.priority == Priority::Urgent && item_visible(
            NavSection::All,
            f,
            it,
        )),
{
}

/// A task is among the shown positions exactly when it is visible.
pub proof fn law_shown_iff_visible(items: Seq<ItemView>, section: NavSection, filter: Option<Seq<char>>, i: int)
    requires
        0 <= i < items.len(),
        items.len() <= usize::MAX,
    ensures
        visible_indices(items, section, filter).contains(i as usize) == item_visible(section, filter, items[i]),
    decreases items.len(),
{
    let prev = visible_indices(items.drop_last(), section, filter);
    lemma_visible_increasing(items.drop_last(), section, filter);
    if i < items.len() - 1 {
        law_shown_iff_visible(items.drop_last(), section, filter, i);
        assert(items.drop_last()[i] == items[i]);
        if item_visible(section, filter, items.last()) {
            assert(prev.push((items.len() - 1) as usize)[prev.len() as int] == (items.len() - 1) as usize);
            if prev.push((items.len() - 1) as usize).contains(i as usize) {
                let pp = prev.push((items.len() - 1) as usize);
                let k = choose|k: int| 0 <= k < pp.len() && #[trigger] pp[k] == i as usize;
                if k < prev.len() {
                    assert(prev[k] == i as usize);
                }
            }
            if prev.contains(i as usize) {
                let k = choose|k: int| 0 <= k < prev.len() && prev[k] == i as usize;
                assert(prev.push((items.len() - 1) as usize)[k] == i as usize);
            }
        }
    } else {
        if item_visible(section, filter, items.last()) {
            assert(prev.push((items.len() - 1) as usize)[prev.len() as int] == (items.len() - 1) as usize);
        } else if prev.contains(i as usize) {
            let k = choose|k: int| 0 <= k < prev.len() && prev[k] == i as usize;
        }
    }
}

/// The title order ignores letter case: tasks with ASCII titles are ordered
/// by their titles with `A`–`Z` taken as `a`–`z`, compared character by
/// character; titles equal up to letter case keep list order.
pub proof fn law_title_order_ignores_case(items: Seq<ItemView>, a: int, b: int)
    requires
        0 <= a < items.len(),
        0 <= b < items.len(),
        is_ascii_chars(items[a].title),
        is_ascii_chars(items[b].title),
    ensures
        ranks_before(items, SortMode::Title, a, b) == (seq_lt(ascii_lower(items[a].title), ascii_lower(items[b].title))
            || (ascii_lower(items[a].title) == ascii_lower(items[b].title) && a < b)),
{
}

/// The priority order lists Urgent, then High, then Medium, then Low; the
/// status order lists To do, then In progress, then Complete; the natural
/// order is list order; ties keep list order.
pub proof fn law_sort_orders(items: Seq<ItemView>, a: int, b: int)
    requires
        0 <= a < items.len(),
        0 <= b < items.len(),
    ensures
        ranks_before(items, SortMode::Natural, a, b) == (a < b),
        items[a].priority == Priority::Urgent && items[b].priority != Priority::Urgent ==> ranks_before(
            items,
            SortMode::Priority,
            a,
            b,
        ),
        items[a].priority == Priority::High && (items[b].priority == Priority::Medium || items[b].priority
            == Priority::Low) ==> ranks_before(items, SortMode::Priority, a, b),
        items[a].priority == Priority::Medium && items[b].priority == Priority::Low ==> ranks_before(
            items,
            SortMode::Priority,
            a,
            b,
        ),
        items[a].priority == items[b].priority ==> ranks_before(items, SortMode::Priority, a, b) == (a < b),
        items[a].status == Status::Todo && items[b].status != Status::Todo ==> ranks_before(
            items,
            SortMode::Status,
            a,
            b,
        ),
        items[a].status == Status::InProgress && items[b].status == Status::Complete ==> ranks_before(
            items,
            SortMode::Status,
            a,
            b,
        ),
        items[a].status == items[b].status ==> ranks_before(items, SortMode::Status, a, b) == (a < b),
{
}

} // verus!
