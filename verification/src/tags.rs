//! The tag table: every tag used in the task list with the number of times
//! it is used, most used first and alphabetical among equals.
use vstd::prelude::*;
use crate::chars::to_chars;
use crate::filter::{chars_eq, chars_lt, lemma_seq_lt_asymmetric, lemma_seq_lt_irreflexive,
    lemma_seq_lt_total, lemma_seq_lt_transitive, seq_lt};
use crate::models::item::{Item, ItemView, items_view};

verus! {

/// How many times `t` occurs in `tags`.
pub open spec fn count_in(tags: Seq<Seq<char>>, t: Seq<char>) -> nat
    decreases tags.len(),
{
    if tags.len() == 0 {
        0
    } else {
        count_in(tags.drop_last(), t) + if tags.last() == t {
            1nat
        } else {
            0nat
        }
    }
}

/// How many times tag `t` is used over all tasks.
pub open spec fn tag_total(items: Seq<ItemView>, t: Seq<char>) -> nat
    decreases items.len(),
{
    if items.len() == 0 {
        0
    } else {
        tag_total(items.drop_last(), t) + count_in(items.last().tags, t)
    }
}

/// The number of tag uses over all tasks.
pub open spec fn tag_occurrences(items: Seq<ItemView>) -> nat
    decreases items.len(),
{
    if items.len() == 0 {
        0
    } else {
        tag_occurrences(items.drop_last()) + items.last().tags.len()
    }
}

/// Some key spells `t`.
pub open spec fn listed(keys: Seq<Vec<char>>, t: Seq<char>) -> bool {
    exists|k: int| 0 <= k < keys.len() && (#[trigger] keys[k])@ == t
}

/// Entry `a` comes before entry `b`: more uses first, then alphabetical.
pub open spec fn tag_before(a: (Seq<char>, usize), b: (Seq<char>, usize)) -> bool {
    a.1 > b.1 || (a.1 == b.1 && seq_lt(a.0, b.0))
}

/// The tag table as plain values.
pub open spec fn tag_table_view(v: Seq<(String, usize)>) -> Seq<(Seq<char>, usize)> {
    v.map_values(|p: (String, usize)| (p.0@, p.1))
}

/// Some entry of `table` is named `t`.
pub open spec fn in_table(table: Seq<(Seq<char>, usize)>, t: Seq<char>) -> bool {
    exists|k: int| 0 <= k < table.len() && (#[trigger] table[k]).0 == t
}

/// `table` is the tag table of `items`: each entry is a used tag with its
/// number of uses, every used tag has an entry, and entries are ordered by
/// `tag_before` (so no tag appears twice).
pub open spec fn tag_table_ok(items: Seq<ItemView>, table: Seq<(Seq<char>, usize)>) -> bool {
    &&& forall|k: int|
        0 <= k < table.len() ==> (#[trigger] table[k]).1 == tag_total(items, table[k].0) && table[k].1
            > 0
    &&& forall|i: int, j: int|
        0 <= i < items.len() && 0 <= j < items[i].tags.len() ==> in_table(table, #[trigger] items[i].tags[j])
    &&& forall|a: int, b: int|
        0 <= a < b < table.len() ==> tag_before(#[trigger] table[a], #[trigger] table[b])
}

proof fn lemma_count_in_step(tags: Seq<Seq<char>>, j: int, t: Seq<char>)
    requires
        0 <= j < tags.len(),
    ensures
        count_in(tags.take(j + 1), t) == count_in(tags.take(j), t) + if tags[j] == t {
            1nat
        } else {
            0nat
        },
{
    assert(tags.take(j + 1).drop_last() == tags.take(j));
}

proof fn lemma_count_in_bound(tags: Seq<Seq<char>>, t: Seq<char>)
    ensures
        count_in(tags, t) <= tags.len(),
    decreases tags.len(),
{
    if tags.len() > 0 {
        lemma_count_in_bound(tags.drop_last(), t);
    }
}

proof fn lemma_tag_total_step(items: Seq<ItemView>, i: int, t: Seq<char>)
    requires
        0 <= i < items.len(),
    ensures
        tag_total(items.take(i + 1), t) == tag_total(items.take(i), t) + count_in(items[i].tags, t),
        tag_occurrences(items.take(i + 1)) == tag_occurrences(items.take(i)) + items[i].tags.len(),
{
    assert(items.take(i + 1).drop_last() == items.take(i));
}

proof fn lemma_tag_total_bound(items: Seq<ItemView>, t: Seq<char>)
    ensures
        tag_total(items, t) <= tag_occurrences(items),
    decreases items.len(),
{
    if items.len() > 0 {
        lemma_tag_total_bound(items.drop_last(), t);
        lemma_count_in_bound(items.last().tags, t);
    }
}

proof fn lemma_occurrences_prefix(items: Seq<ItemView>, i: int)
    requires
        0 <= i <= items.len(),
    ensures
        tag_occurrences(items.take(i)) <= tag_occurrences(items),
    decreases items.len() - i,
{
    if i < items.len() {
        lemma_occurrences_prefix(items, i + 1);
        lemma_tag_total_step(items, i, Seq::empty());
    } else {
        assert(items.take(i) == items);
    }
}

/// `tag_before` is a strict total order on entries with distinct names.
proof fn lemma_tag_before_order(a: (Seq<char>, usize), b: (Seq<char>, usize), c: (Seq<char>, usize))
    ensures
        !tag_before(a, a),
        a.0 != b.0 ==> tag_before(a, b) || tag_before(b, a),
        tag_before(a, b) ==> !tag_before(b, a),
        tag_before(a, b) && tag_before(b, c) ==> tag_before(a, c),
{
    lemma_seq_lt_irreflexive(a.0);
    lemma_seq_lt_total(a.0, b.0);
    if seq_lt(a.0, b.0) {
        lemma_seq_lt_asymmetric(a.0, b.0);
    }
    if tag_before(a, b) && tag_before(b, c) && a.1 == b.1 && b.1 == c.1 {
        lemma_seq_lt_transitive(a.0, b.0, c.0);
    }
}

/// The uses of each distinct tag, unordered: `keys[k]` is the name of
/// `names[k]`, `counts[k]` its number of uses.
fn count_tags(items: &Vec<Item>) -> (r: (Vec<String>, Vec<Vec<char>>, Vec<usize>))
    requires
        tag_occurrences(items_view(items@)) <= usize::MAX,
    ensures
        r.0@.len() == r.1@.len() == r.2@.len(),
        r.1@.len() <= tag_occurrences(items_view(items@)),
        forall|k: int| 0 <= k < r.1@.len() ==> (#[trigger] r.1@[k])@ == r.0@[k]@,
        forall|a: int, b: int| 0 <= a < b < r.1@.len() ==> (#[trigger] r.1@[a])@ != (#[trigger] r.1@[b])@,
        forall|k: int|
            0 <= k < r.2@.len() ==> #[trigger] r.2@[k] == tag_total(items_view(items@), r.1@[k]@)
                && r.2@[k] > 0,
        forall|i: int, j: int|
            0 <= i < items@.len() && 0 <= j < items_view(items@)[i].tags.len() ==> listed(
                r.1@,
                #[trigger] items_view(items@)[i].tags[j],
            ),
{
    let ghost v = items_view(items@);
    let mut names: Vec<String> = Vec::new();
    let mut keys: Vec<Vec<char>> = Vec::new();
    let mut counts: Vec<usize> = Vec::new();
    let mut i: usize = 0;
    while i < items.len()
        invariant
            v == items_view(items@),
            i <= items@.len(),
            tag_occurrences(v) <= usize::MAX,
            keys@.len() <= tag_occurrences(v.take(i as int)),
            names@.len() == keys@.len() == counts@.len(),
            forall|k: int| 0 <= k < keys@.len() ==> (#[trigger] keys@[k])@ == names@[k]@,
            forall|a: int, b: int| 0 <= a < b < keys@.len() ==> (#[trigger] keys@[a])@ != (#[trigger] keys@[b])@,
            forall|k: int|
                0 <= k < counts@.len() ==> #[trigger] counts@[k] == tag_total(v.take(i as int), keys@[k]@)
                    && counts@[k] > 0,
            forall|i2: int, j: int|
                0 <= i2 < i && 0 <= j < v[i2].tags.len() ==> exists|k: int|
                    0 <= k < keys@.len() && (#[trigger] keys@[k])@ == #[trigger] v[i2].tags[j],
        decreases items@.len() - i,
    {
        let tags = &items[i].tags;
        let ghost tv = v[i as int].tags;
        assert(tv == crate::models::item::strings_view(tags@));
        proof {
            lemma_occurrences_prefix(v, i + 1);
            lemma_tag_total_step(v, i as int, Seq::empty());
        }
        let mut j: usize = 0;
        while j < tags.len()
            invariant
                v == items_view(items@),
                i < items@.len(),
                tags == &items@[i as int].tags,
                tv == v[i as int].tags,
                tv.len() == tags@.len(),
                forall|q: int| 0 <= q < tv.len() ==> #[trigger] tv[q] == tags@[q]@,
                j <= tags@.len(),
                tag_occurrences(v.take(i as int)) + tv.len() <= usize::MAX,
                tag_occurrences(v.take(i as int)) + tv.len() == tag_occurrences(v.take(i + 1)),
                keys@.len() <= tag_occurrences(v.take(i as int)) + j,
                names@.len() == keys@.len() == counts@.len(),
                forall|k: int| 0 <= k < keys@.len() ==> (#[trigger] keys@[k])@ == names@[k]@,
                forall|a: int, b: int|
                    0 <= a < b < keys@.len() ==> (#[trigger] keys@[a])@ != (#[trigger] keys@[b])@,
                forall|k: int|
                    0 <= k < counts@.len() ==> #[trigger] counts@[k] == tag_total(v.take(i as int), keys@[k]@)
                        + count_in(tv.take(j as int), keys@[k]@) && counts@[k] > 0,
                forall|i2: int, j2: int|
                    0 <= i2 < i && 0 <= j2 < v[i2].tags.len() ==> exists|k: int|
                        0 <= k < keys@.len() && (#[trigger] keys@[k])@ == #[trigger] v[i2].tags[j2],
                forall|j2: int|
                    0 <= j2 < j ==> exists|k: int|
                        0 <= k < keys@.len() && (#[trigger] keys@[k])@ == #[trigger] tv[j2],
            decreases tags@.len() - j,
        {
            let name = to_chars(tags[j].as_str());
            let ghost t = name@;
            assert(t == tv[j as int]);
            let mut k: usize = 0;
            while k < keys.len() && !chars_eq(&keys[k], &name)
                invariant
                    k <= keys@.len(),
                    forall|q: int| 0 <= q < k ==> (#[trigger] keys@[q])@ != name@,
                decreases keys@.len() - k,
            {
                k = k + 1;
            }
            proof {
                lemma_count_in_step(tv, j as int, t);
                assert forall|q: int| 0 <= q < counts@.len() && keys@[q]@ != t implies count_in(
                    tv.take(j + 1),
                    keys@[q]@,
                ) == count_in(tv.take(j as int), keys@[q]@) by {
                    lemma_count_in_step(tv, j as int, keys@[q]@);
                }
                lemma_tag_total_bound(v.take(i as int), t);
                lemma_count_in_bound(tv.take(j as int), t);
            }
            let ghost old_keys = keys@;
            let ghost old_counts = counts@;
            if k < keys.len() {
                let c = counts[k];
                counts.set(k, c + 1);
                proof {
                    assert forall|q: int| 0 <= q < counts@.len() implies #[trigger] counts@[q]
                        == tag_total(v.take(i as int), keys@[q]@) + count_in(tv.take(j + 1), keys@[q]@)
                        && counts@[q] > 0 by {
                        if q != k {
                            assert(old_keys[q]@ != old_keys[k as int]@);
                        }
                    }
                }
            } else {
                names.push(tags[j].clone());
                keys.push(name);
                counts.push(1);
                proof {
                    assert forall|q: int| 0 <= q < counts@.len() implies #[trigger] counts@[q]
                        == tag_total(v.take(i as int), keys@[q]@) + count_in(tv.take(j + 1), keys@[q]@)
                        && counts@[q] > 0 by {
                        if q == k {
                            assert(keys@[q]@ == t);
                            assert(count_in(tv.take(j as int), t) == 0) by {
                                lemma_absent_not_counted(v, i as int, tv, j as int, t, old_keys);
                            }
                            assert(tag_total(v.take(i as int), t) == 0) by {
                                lemma_absent_not_used(v, i as int, t, old_keys);
                            }
                        } else {
                            assert(keys@[q] == old_keys[q]);
                        }
                    }
                    assert forall|a: int, b: int| 0 <= a < b < keys@.len() implies (#[trigger] keys@[a])@
                        != (#[trigger] keys@[b])@ by {
                        if b == k {
                            assert(keys@[a] == old_keys[a]);
                        }
                    }
                }
            }
            proof {
                assert forall|i2: int, j2: int|
                    0 <= i2 < i && 0 <= j2 < v[i2].tags.len() implies exists|q: int|
                        0 <= q < keys@.len() && (#[trigger] keys@[q])@ == #[trigger] v[i2].tags[j2] by {
                    let q0 = choose|q: int| 0 <= q < old_keys.len() && (#[trigger] old_keys[q])@ == v[i2].tags[j2];
                    assert(keys@[q0] == old_keys[q0]);
                }
                assert forall|j2: int| 0 <= j2 < j + 1 implies exists|q: int|
                    0 <= q < keys@.len() && (#[trigger] keys@[q])@ == #[trigger] tv[j2] by {
                    if j2 < j {
                        let q0 = choose|q: int| 0 <= q < old_keys.len() && (#[trigger] old_keys[q])@ == tv[j2];
                        assert(keys@[q0] == old_keys[q0]);
                    } else {
                        assert(keys@[k as int]@ == tv[j2]);
                    }
                }
            }
            j = j + 1;
        }
        proof {
            assert(tv.take(tv.len() as int) == tv);
            assert forall|q: int| 0 <= q < counts@.len() implies #[trigger] counts@[q] == tag_total(
                v.take(i + 1),
                keys@[q]@,
            ) && counts@[q] > 0 by {
                lemma_tag_total_step(v, i as int, keys@[q]@);
            }
            assert forall|i2: int, j2: int|
                0 <= i2 < i + 1 && 0 <= j2 < v[i2].tags.len() implies exists|q: int|
                    0 <= q < keys@.len() && (#[trigger] keys@[q])@ == #[trigger] v[i2].tags[j2] by {
                if i2 == i {
                    assert(v[i2].tags[j2] == tv[j2]);
                }
            }
        }
        i = i + 1;
    }
    assert(v.take(v.len() as int) == v);
    proof {
        lemma_occurrences_prefix(v, v.len() as int);
    }
    assert forall|i2: int, j2: int|
        0 <= i2 < items@.len() && 0 <= j2 < items_view(items@)[i2].tags.len() implies listed(
            keys@,
            #[trigger] items_view(items@)[i2].tags[j2],
        ) by {
        assert(v[i2].tags[j2] == items_view(items@)[i2].tags[j2]);
        let q = choose|q: int| 0 <= q < keys@.len() && (#[trigger] keys@[q])@ == v[i2].tags[j2];
        assert(keys@[q]@ == v[i2].tags[j2]);
    }
    (names, keys, counts)
}

/// A tag missing from the table has not been seen in the current task yet.
proof fn lemma_absent_not_counted(
    v: Seq<ItemView>,
    i: int,
    tv: Seq<Seq<char>>,
    j: int,
    t: Seq<char>,
    keys: Seq<Vec<char>>,
)
    requires
        0 <= j <= tv.len(),
        forall|q: int| 0 <= q < keys.len() ==> (#[trigger] keys[q])@ != t,
        forall|j2: int|
            0 <= j2 < j ==> exists|k: int| 0 <= k < keys.len() && (#[trigger] keys[k])@ == #[trigger] tv[j2],
    ensures
        count_in(tv.take(j), t) == 0,
    decreases j,
{
    if j > 0 {
        lemma_count_in_step(tv, j - 1, t);
        let k = choose|k: int| 0 <= k < keys.len() && (#[trigger] keys[k])@ == tv[j - 1];
        lemma_absent_not_counted(v, i, tv, j - 1, t, keys);
    }
}

/// A tag missing from the table is not used by the tasks counted so far.
proof fn lemma_absent_not_used(v: Seq<ItemView>, i: int, t: Seq<char>, keys: Seq<Vec<char>>)
    requires
        0 <= i <= v.len(),
        forall|q: int| 0 <= q < keys.len() ==> (#[trigger] keys[q])@ != t,
        forall|i2: int, j2: int|
            0 <= i2 < i && 0 <= j2 < v[i2].tags.len() ==> exists|k: int|
                0 <= k < keys.len() && (#[trigger] keys[k])@ == #[trigger] v[i2].tags[j2],
    ensures
        tag_total(v.take(i), t) == 0,
    decreases i,
{
    if i > 0 {
        lemma_tag_total_step(v, i - 1, t);
        lemma_absent_not_used(v, i - 1, t, keys);
        let tv = v[i - 1].tags;
        assert forall|j2: int| 0 <= j2 < tv.len() implies exists|k: int|
            0 <= k < keys.len() && (#[trigger] keys[k])@ == #[trigger] tv[j2] by {
            assert(tv[j2] == v[i - 1].tags[j2]);
        }
        lemma_absent_not_counted(v, i - 1, tv, tv.len() as int, t, keys);
        assert(tv.take(tv.len() as int) == tv);
    }
}

/// Entry `x` of the unordered table comes before entry `y`.
fn entry_before(keys: &Vec<Vec<char>>, counts: &Vec<usize>, x: usize, y: usize) -> (b: bool)
    requires
        x < keys@.len(),
        y < keys@.len(),
        keys@.len() == counts@.len(),
    ensures
        b == tag_before((keys@[x as int]@, counts@[x as int]), (keys@[y as int]@, counts@[y as int])),
{
    counts[x] > counts[y] || (counts[x] == counts[y] && chars_lt(&keys[x], &keys[y]))
}

/// The entry of the unordered table at position `x`.
pub open spec fn entry(keys: Seq<Vec<char>>, counts: Seq<usize>, x: int) -> (Seq<char>, usize) {
    (keys[x]@, counts[x])
}

/// The positions of the unordered table, ordered by `tag_before`.
fn order_entries(keys: &Vec<Vec<char>>, counts: &Vec<usize>) -> (r: Vec<usize>)
    requires
        keys@.len() == counts@.len(),
        forall|a: int, b: int| 0 <= a < b < keys@.len() ==> (#[trigger] keys@[a])@ != (#[trigger] keys@[b])@,
    ensures
        r@.len() == keys@.len(),
        forall|k: int| 0 <= k < r@.len() ==> #[trigger] r@[k] < keys@.len(),
        forall|x: usize| x < keys@.len() ==> #[trigger] r@.contains(x),
        forall|a: int, b: int|
            0 <= a < b < r@.len() ==> tag_before(
                entry(keys@, counts@, #[trigger] r@[a] as int),
                entry(keys@, counts@, #[trigger] r@[b] as int),
            ),
{
    let m = keys.len();
    let mut r: Vec<usize> = Vec::new();
    let mut x: usize = 0;
    while x < m
        invariant
            m == keys@.len() == counts@.len(),
            x <= m,
            r@.len() == x,
            forall|a: int, b: int| 0 <= a < b < keys@.len() ==> (#[trigger] keys@[a])@ != (#[trigger] keys@[b])@,
            forall|k: int| 0 <= k < r@.len() ==> #[trigger] r@[k] < x,
            forall|y: usize| y < x ==> #[trigger] r@.contains(y),
            forall|a: int, b: int|
                0 <= a < b < r@.len() ==> tag_before(
                    entry(keys@, counts@, #[trigger] r@[a] as int),
                    entry(keys@, counts@, #[trigger] r@[b] as int),
                ),
        decreases m - x,
    {
        let mut p: usize = 0;
        while p < r.len() && !entry_before(keys, counts, x, r[p])
            invariant
                p <= r@.len(),
                x < m == keys@.len() == counts@.len(),
                forall|k: int| 0 <= k < r@.len() ==> #[trigger] r@[k] < x,
                forall|q: int|
                    0 <= q < p ==> !tag_before(
                        entry(keys@, counts@, x as int),
                        entry(keys@, counts@, #[trigger] r@[q] as int),
                    ),
            decreases r@.len() - p,
        {
            p = p + 1;
        }
        let ghost old_r = r@;
        let ghost ex = entry(keys@, counts@, x as int);
        proof {
            assert forall|q: int| 0 <= q < p implies tag_before(
                entry(keys@, counts@, #[trigger] old_r[q] as int),
                ex,
            ) by {
                let eq = entry(keys@, counts@, old_r[q] as int);
                assert(old_r[q] < x);
                assert(keys@[old_r[q] as int]@ != keys@[x as int]@);
                lemma_tag_before_order(ex, eq, ex);
            }
            assert forall|q: int| p <= q < old_r.len() implies tag_before(
                ex,
                entry(keys@, counts@, #[trigger] old_r[q] as int),
            ) by {
                let ep = entry(keys@, counts@, old_r[p as int] as int);
                if q > p {
                    let eq = entry(keys@, counts@, old_r[q] as int);
                    assert(tag_before(ep, eq));
                    lemma_tag_before_order(ex, ep, eq);
                }
            }
        }
        r.insert(p, x);
        proof {
            let nr = r@;
            assert(nr == old_r.insert(p as int, x));
            assert forall|a: int, b: int| 0 <= a < b < nr.len() implies tag_before(
                entry(keys@, counts@, #[trigger] nr[a] as int),
                entry(keys@, counts@, #[trigger] nr[b] as int),
            ) by {
                if a < p && b < p {
                    assert(nr[a] == old_r[a] && nr[b] == old_r[b]);
                } else if a < p && b == p {
                    assert(nr[a] == old_r[a]);
                } else if a < p {
                    assert(nr[a] == old_r[a] && nr[b] == old_r[b - 1]);
                } else if a == p {
                    assert(nr[b] == old_r[b - 1]);
                } else {
                    assert(nr[a] == old_r[a - 1] && nr[b] == old_r[b - 1]);
                }
            }
            assert forall|k: int| 0 <= k < nr.len() implies #[trigger] nr[k] < x + 1 by {
                if k < p {
                    assert(nr[k] == old_r[k]);
                } else if k > p {
                    assert(nr[k] == old_r[k - 1]);
                }
            }
            assert forall|y: usize| y < x + 1 implies #[trigger] nr.contains(y) by {
                if y < x {
                    assert(old_r.contains(y));
                    let j = choose|j: int| 0 <= j < old_r.len() && old_r[j] == y;
                    if j < p {
                        assert(nr[j] == y);
                    } else {
                        assert(nr[j + 1] == y);
                    }
                } else {
                    assert(nr[p as int] == x);
                }
            }
        }
        x = x + 1;
    }
    r
}

/// The tag table of the task list.
pub fn tag_table(items: &Vec<Item>) -> (r: Vec<(String, usize)>)
    requires
        tag_occurrences(items_view(items@)) <= usize::MAX,
    ensures
        tag_table_ok(items_view(items@), tag_table_view(r@)),
        r@.len() <= tag_occurrences(items_view(items@)),
{
    let (names, keys, counts) = count_tags(items);
    let order = order_entries(&keys, &counts);
    let ghost v = items_view(items@);
    let mut r: Vec<(String, usize)> = Vec::new();
    let mut k: usize = 0;
    while k < order.len()
        invariant
            k <= order@.len() == keys@.len() == names@.len() == counts@.len(),
            forall|q: int| 0 <= q < order@.len() ==> #[trigger] order@[q] < keys@.len(),
            forall|q: int| 0 <= q < keys@.len() ==> (#[trigger] keys@[q])@ == names@[q]@,
            r@.len() == k,
            forall|q: int|
                0 <= q < k ==> (#[trigger] r@[q]).0@ == keys@[order@[q] as int]@ && r@[q].1
                    == counts@[order@[q] as int],
        decreases order@.len() - k,
    {
        let p = order[k];
        r.push((names[p].clone(), counts[p]));
        k = k + 1;
    }
    let ghost t = tag_table_view(r@);
    proof {
        assert forall|q: int| 0 <= q < t.len() implies #[trigger] t[q] == entry(
            keys@,
            counts@,
            order@[q] as int,
        ) by {}
        assert forall|a: int, b: int| 0 <= a < b < t.len() implies tag_before(#[trigger] t[a], #[trigger] t[b]) by {
            assert(t[a] == entry(keys@, counts@, order@[a] as int));
            assert(t[b] == entry(keys@, counts@, order@[b] as int));
        }
        assert forall|q: int| 0 <= q < t.len() implies (#[trigger] t[q]).1 == tag_total(v, t[q].0)
            && t[q].1 > 0 by {
            assert(t[q] == entry(keys@, counts@, order@[q] as int));
        }
        assert forall|i: int, j: int| 0 <= i < v.len() && 0 <= j < v[i].tags.len() implies in_table(t, #[trigger] v[i].tags[j]) by {
            assert(listed(keys@, v[i].tags[j]));
            let x = choose|x: int| 0 <= x < keys@.len() && (#[trigger] keys@[x])@ == v[i].tags[j];
            assert(x < keys@.len());
            assert(order@.contains(x as usize));
            let q = choose|q: int| 0 <= q < order@.len() && order@[q] == x as usize;
            assert(t[q] == entry(keys@, counts@, order@[q] as int));
            assert(t[q].0 == v[i].tags[j]);
        }
        assert(tag_table_ok(v, t));
    }
    r
}

} // verus!
