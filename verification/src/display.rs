//! What the screen shows, computed apart from drawing it: shortened texts,
//! the progress bar, the tag line of a row, the list position and the runs
//! of selected and unselected text in an input field.
use vstd::prelude::*;
use vstd::utf8::{decode_utf8, encode_utf8, encode_utf8_decode_utf8, is_char_boundary};
use crate::app::{concat2, owned};
use crate::chars::{from_chars, push_char, push_str, to_chars};
use crate::forms::join;
use crate::models::item::strings_view;
use crate::textedit::selection_range;

verus! {

// ---------------------------------------------------------------------------
// Shortened text.
// ---------------------------------------------------------------------------

/// `t` cut after its first `n` bytes (in UTF-8) and marked with "...", when
/// it is longer than that; else `t` itself.
pub open spec fn cut(t: Seq<char>, n: nat) -> Seq<char> {
    if encode_utf8(t).len() > n {
        decode_utf8(encode_utf8(t).subrange(0, n as int)) + "..."@
    } else {
        t
    }
}

/// `t` can be cut after `n` bytes: when it is longer, its `n`th byte ends a
/// character.
pub open spec fn cut_ok(t: Seq<char>, n: nat) -> bool {
    encode_utf8(t).len() > n ==> is_char_boundary(encode_utf8(t), n as int)
}

/// `s` shortened to its first `n` bytes (see `cut`).
pub fn cut_text(s: &str, n: usize) -> (r: String)
    requires
        cut_ok(s@, n as nat),
    ensures
        r@ == cut(s@, n as nat),
{
    if s.as_bytes().len() > n {
        let (head, _rest) = s.split_at(n);
        proof {
            encode_utf8_decode_utf8(head@);
        }
        concat2(head, "...")
    } else {
        owned(s)
    }
}

// ---------------------------------------------------------------------------
// The pane layout.
// ---------------------------------------------------------------------------

/// Which panes share the middle row of the screen.
#[derive(PartialEq, Eq, Clone, Copy, Debug, Structural)]
pub enum PaneLayout {
    /// Navigator, task view and inspector side by side.
    NavMainInspector,
    /// Task view and inspector.
    MainInspector,
    /// The task view alone.
    MainOnly,
}

/// The layout for a middle row `width` columns wide: three panes from 115
/// columns on, two from 80, else the task view alone.
pub open spec fn layout_for(width: int) -> PaneLayout {
    if width >= 115 {
        PaneLayout::NavMainInspector
    } else if width >= 80 {
        PaneLayout::MainInspector
    } else {
        PaneLayout::MainOnly
    }
}

/// The share of the width, in percent, that each pane of `layout` takes,
/// from left to right.
pub open spec fn pane_shares(layout: PaneLayout) -> Seq<u16> {
    match layout {
        PaneLayout::NavMainInspector => seq![18u16, 48u16, 34u16],
        PaneLayout::MainInspector => seq![60u16, 40u16],
        PaneLayout::MainOnly => seq![100u16],
    }
}

/// The layout for a middle row `width` columns wide.
pub fn pane_layout(width: u16) -> (r: PaneLayout)
    ensures
        r == layout_for(width as int),
{
    if width >= 115 {
        PaneLayout::NavMainInspector
    } else if width >= 80 {
        PaneLayout::MainInspector
    } else {
        PaneLayout::MainOnly
    }
}

/// The percentage of the row width given to each pane of `layout`, from left
/// to right.
pub fn pane_percentages(layout: PaneLayout) -> (r: Vec<u16>)
    ensures
        r@ == pane_shares(layout),
{
    match layout {
        PaneLayout::NavMainInspector => vec![18u16, 48u16, 34u16],
        PaneLayout::MainInspector => vec![60u16, 40u16],
        PaneLayout::MainOnly => vec![100u16],
    }
}

/// The shares of every layout fill the whole row.
pub proof fn law_pane_shares_fill_row(layout: PaneLayout)
    ensures
        pane_shares(layout).fold_left(0int, |acc: int, x: u16| acc + x) == 100,
{
    let s = pane_shares(layout);
    reveal_with_fuel(Seq::fold_left, 4);
    match layout {
        PaneLayout::NavMainInspector => {
            assert(s.drop_last() =~= seq![18u16, 48u16]);
            assert(s.drop_last().drop_last() =~= seq![18u16]);
            assert(s.drop_last().drop_last().drop_last() =~= Seq::<u16>::empty());
        },
        PaneLayout::MainInspector => {
            assert(s.drop_last() =~= seq![60u16]);
            assert(s.drop_last().drop_last() =~= Seq::<u16>::empty());
        },
        PaneLayout::MainOnly => {
            assert(s.drop_last() =~= Seq::<u16>::empty());
        },
    }
}

// ---------------------------------------------------------------------------
// The progress bar.
// ---------------------------------------------------------------------------

/// The number of filled cells of the 16-cell progress bar at `percent`.
pub open spec fn bar_filled(percent: int) -> int {
    percent * 16 / 100
}

/// `k` copies of `c`.
pub open spec fn repeat(c: char, k: int) -> Seq<char> {
    Seq::new(if k > 0 { k as nat } else { 0 }, |i: int| c)
}

/// The progress bar: 16 cells between brackets, the completed share filled
/// with '=' and the rest with '.'.
pub open spec fn progress_text(percent: int) -> Seq<char> {
    "["@ + repeat('=', bar_filled(percent)) + repeat('.', 16 - bar_filled(percent)) + "]"@
}

/// Appends `k` copies of `c`.
fn push_repeat(s: &mut String, c: char, k: usize)
    ensures
        final(s)@ == old(s)@ + repeat(c, k as int),
{
    let mut i: usize = 0;
    while i < k
        invariant
            i <= k,
            s@ == old(s)@ + repeat(c, i as int),
        decreases k - i,
    {
        push_char(s, c);
        assert(repeat(c, i + 1) =~= repeat(c, i as int).push(c));
        i = i + 1;
    }
}

/// The progress bar for `percent` (see `progress_text`).
pub fn progress_bar(percent: usize) -> (r: String)
    requires
        percent * 16 <= usize::MAX,
    ensures
        r@ == progress_text(percent as int),
{
    let filled = percent * 16 / 100;
    let empty = 16usize.saturating_sub(filled);
    let mut s = owned("[");
    push_repeat(&mut s, '=', filled);
    push_repeat(&mut s, '.', empty);
    push_str(&mut s, "]");
    assert(repeat('.', empty as int) == repeat('.', 16 - bar_filled(percent as int)));
    s
}

// ---------------------------------------------------------------------------
// The tag line of a table row.
// ---------------------------------------------------------------------------

/// The tags, each written with a leading '#'.
pub open spec fn hashed(tags: Seq<Seq<char>>) -> Seq<Seq<char>> {
    tags.map_values(|t: Seq<char>| "#"@ + t)
}

/// The tags as `#a #b #c`.
pub fn tag_line(tags: &Vec<String>) -> (r: String)
    ensures
        r@ == join(hashed(strings_view(tags@)), " "@),
{
    let mut s = String::new();
    let mut i: usize = 0;
    let ghost v = hashed(strings_view(tags@));
    assert(v.take(0) =~= Seq::<Seq<char>>::empty());
    while i < tags.len()
        invariant
            i <= tags@.len(),
            v == hashed(strings_view(tags@)),
            s@ == join(v.take(i as int), " "@),
        decreases tags@.len() - i,
    {
        assert(v.take(i + 1).drop_last() == v.take(i as int));
        if i > 0 {
            push_str(&mut s, " ");
        }
        push_str(&mut s, "#");
        push_str(&mut s, tags[i].as_str());
        assert(v.take(i + 1).last() == "#"@ + tags@[i as int]@);
        assert(s@ == join(v.take(i + 1), " "@));
        i = i + 1;
    }
    assert(v.take(tags@.len() as int) == v);
    s
}

// ---------------------------------------------------------------------------
// The list position.
// ---------------------------------------------------------------------------

/// The 1-based position of the selected row (0 with no selection or no
/// rows) and how far down the list it is, in percent rounded down.
pub open spec fn position_spec(selected: Option<usize>, total: int) -> (int, int) {
    let pos = match selected {
        Some(i) => if total > 0 {
            i + 1
        } else {
            0
        },
        None => 0,
    };
    (pos, if total == 0 {
        0
    } else {
        pos * 100 / total
    })
}

/// The position shown in the footer (see `position_spec`).
pub fn list_position(selected: Option<usize>, total: usize) -> (r: (usize, usize))
    requires
        selected matches Some(i) ==> (i + 1) * 100 <= usize::MAX,
    ensures
        (r.0 as int, r.1 as int) == position_spec(selected, total as int),
{
    let pos = match selected {
        Some(i) => if total > 0 {
            i + 1
        } else {
            0
        },
        None => 0,
    };
    let percent = if total == 0 {
        0
    } else {
        pos * 100 / total
    };
    (pos, percent)
}

// ---------------------------------------------------------------------------
// Selected text in an input field.
// ---------------------------------------------------------------------------

/// The maximal runs of equally flagged characters, in order, each with its
/// flag.
pub open spec fn runs(cells: Seq<(char, bool)>) -> Seq<(Seq<char>, bool)>
    decreases cells.len(),
{
    if cells.len() == 0 {
        Seq::empty()
    } else {
        let prev = runs(cells.drop_last());
        let c = cells.last();
        if prev.len() > 0 && prev.last().1 == c.1 {
            prev.update(prev.len() - 1, (prev.last().0.push(c.0), c.1))
        } else {
            prev.push((seq![c.0], c.1))
        }
    }
}

/// The cells split into lines at newline characters (which belong to no
/// line): one more line than there are newlines.
pub open spec fn cell_lines(cells: Seq<(char, bool)>) -> Seq<Seq<(char, bool)>>
    decreases cells.len(),
{
    if cells.len() == 0 {
        seq![Seq::empty()]
    } else {
        let prev = cell_lines(cells.drop_last());
        if cells.last().0 == '\n' {
            prev.push(Seq::empty())
        } else {
            prev.update(prev.len() - 1, prev.last().push(cells.last()))
        }
    }
}

/// The characters of `text`, each flagged when it lies in `[lo, hi]`.
pub open spec fn flagged(text: Seq<char>, lo: int, hi: int) -> Seq<(char, bool)> {
    Seq::new(text.len(), |i: int| (text[i], lo <= i && i <= hi))
}

/// The lines of `text` as runs of selected and unselected characters, for
/// the selection between `anchor` and `cursor` (both ends included).
pub open spec fn selection_lines(text: Seq<char>, cursor: int, anchor: int) -> Seq<Seq<(Seq<char>, bool)>> {
    let lo = if anchor < cursor { anchor } else { cursor };
    let hi = if anchor < cursor { cursor } else { anchor };
    cell_lines(flagged(text, lo, hi)).map_values(|l: Seq<(char, bool)>| runs(l))
}

/// A line's runs as plain values.
pub open spec fn runs_view(v: Seq<(String, bool)>) -> Seq<(Seq<char>, bool)> {
    v.map_values(|r: (String, bool)| (r.0@, r.1))
}

/// All lines' runs as plain values.
pub open spec fn lines_view(v: Seq<Vec<(String, bool)>>) -> Seq<Seq<(Seq<char>, bool)>> {
    v.map_values(|l: Vec<(String, bool)>| runs_view(l@))
}

/// The runs of the current line: those closed so far, then the open one.
pub open spec fn open_runs(spans: Seq<(String, bool)>, run: Seq<char>, flag: bool) -> Seq<(Seq<char>, bool)> {
    if run.len() == 0 {
        runs_view(spans)
    } else {
        runs_view(spans).push((run, flag))
    }
}

/// Closes the open run of the current line, if it holds characters.
fn close_run(spans: &mut Vec<(String, bool)>, run: &Vec<char>, flag: bool)
    ensures
        runs_view(final(spans)@) == open_runs(old(spans)@, run@, flag),
{
    if run.len() > 0 {
        let ghost pre = spans@;
        spans.push((from_chars(run.as_slice()), flag));
        assert(runs_view(spans@) =~= runs_view(pre).push((run@, flag)));
    }
}

/// The lines of `text` as runs of selected and unselected characters (see
/// `selection_lines`), for drawing an input field with a visual selection.
pub fn selection_runs(text: &str, cursor: usize, anchor: usize) -> (r: Vec<Vec<(String, bool)>>)
    ensures
        lines_view(r@) == selection_lines(text@, cursor as int, anchor as int),
{
    let chars = to_chars(text);
    let (lo, hi) = selection_range(anchor, cursor);
    let ghost cells = flagged(chars@, lo as int, hi as int);
    let mut lines: Vec<Vec<(String, bool)>> = Vec::new();
    let mut spans: Vec<(String, bool)> = Vec::new();
    let mut run: Vec<char> = Vec::new();
    let mut run_flag = false;
    let mut i: usize = 0;
    assert(cells.take(0) =~= Seq::<(char, bool)>::empty());
    assert(lines_view(lines@) =~= Seq::<Seq<(Seq<char>, bool)>>::empty());
    assert(runs_view(spans@) =~= Seq::<(Seq<char>, bool)>::empty());
    while i < chars.len()
        invariant
            i <= chars@.len(),
            chars@ == text@,
            cells == flagged(chars@, lo as int, hi as int),
            cell_lines(cells.take(i as int)).len() >= 1,
            lines_view(lines@) == cell_lines(cells.take(i as int)).drop_last().map_values(
                |l: Seq<(char, bool)>| runs(l),
            ),
            open_runs(spans@, run@, run_flag) == runs(cell_lines(cells.take(i as int)).last()),
            run@.len() == 0 ==> spans@.len() == 0,
        decreases chars@.len() - i,
    {
        let ghost p = cell_lines(cells.take(i as int));
        let ghost s = cells.take(i + 1);
        assert(s.drop_last() == cells.take(i as int));
        assert(s.last() == cells[i as int]);
        let c = chars[i];
        let flag = lo <= i && i <= hi;
        if c == '\n' {
            close_run(&mut spans, &run, run_flag);
            let ghost pre = lines@;
            let line = spans;
            lines.push(line);
            spans = Vec::new();
            run = Vec::new();
            proof {
                assert(lines_view(lines@) =~= lines_view(pre).push(runs(p.last())));
                assert(cell_lines(s) == p.push(Seq::empty()));
                assert(p.drop_last().push(p.last()) =~= p);
                assert(cell_lines(s).drop_last() == p);
                assert(p.map_values(|l: Seq<(char, bool)>| runs(l)) =~= p.drop_last().map_values(
                    |l: Seq<(char, bool)>| runs(l),
                ).push(runs(p.last())));
                assert(runs_view(spans@) =~= Seq::<(Seq<char>, bool)>::empty());
                assert(runs(Seq::<(char, bool)>::empty()) == Seq::<(Seq<char>, bool)>::empty());
            }
        } else {
            let ghost line = p.last();
            let ghost before = runs(line);
            let ghost old_spans = spans@;
            let ghost old_run = run@;
            let ghost old_flag = run_flag;
            assert(line.push((c, flag)).drop_last() == line);
            assert(line.push((c, flag)).last() == (c, flag));
            if flag != run_flag && run.len() > 0 {
                close_run(&mut spans, &run, run_flag);
                run = Vec::new();
            }
            run_flag = flag;
            run.push(c);
            proof {
                assert(cell_lines(s) == p.update(p.len() - 1, line.push((c, flag))));
                assert(cell_lines(s).drop_last() =~= p.drop_last());
                assert(cell_lines(s).last() == line.push((c, flag)));
                let after = runs(line.push((c, flag)));
                if old_run.len() == 0 {
                    assert(before =~= Seq::<(Seq<char>, bool)>::empty());
                    assert(run@ =~= seq![c]);
                    assert(runs_view(spans@) =~= Seq::<(Seq<char>, bool)>::empty());
                    assert(open_runs(spans@, run@, run_flag) =~= after);
                } else if old_flag == flag {
                    assert(before == runs_view(old_spans).push((old_run, old_flag)));
                    assert(run@ =~= old_run.push(c));
                    assert(after =~= runs_view(old_spans).push((old_run.push(c), flag)));
                    assert(open_runs(spans@, run@, run_flag) =~= after);
                } else {
                    assert(before == runs_view(old_spans).push((old_run, old_flag)));
                    assert(runs_view(spans@) == before);
                    assert(run@ =~= seq![c]);
                    assert(open_runs(spans@, run@, run_flag) =~= after);
                }
            }
        }
        i = i + 1;
    }
    assert(cells.take(chars@.len() as int) == cells);
    let ghost p = cell_lines(cells);
    close_run(&mut spans, &run, run_flag);
    let ghost pre = lines@;
    lines.push(spans);
    proof {
        assert(lines_view(lines@) =~= lines_view(pre).push(runs(p.last())));
        assert(p.drop_last().push(p.last()) =~= p);
        assert(p.map_values(|l: Seq<(char, bool)>| runs(l)) =~= p.drop_last().map_values(
            |l: Seq<(char, bool)>| runs(l),
        ).push(runs(p.last())));
    }
    lines
}

} // verus!
