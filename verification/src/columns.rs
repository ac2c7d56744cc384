use crate::item::{models_of, DisplayEntry, EntryModel};
use crate::rect::{spans_disjoint, Rect};
use crate::split::{split_area, SplitConstraint};
use vstd::arithmetic::div_mod::{
    lemma_div_is_ordered, lemma_div_is_ordered_by_denominator, lemma_div_pos_is_pos,
    lemma_fundamental_div_mod, lemma_fundamental_div_mod_converse,
};
use vstd::arithmetic::mul::lemma_mul_inequality;
use vstd::prelude::*;

verus! {

/// The widest panel the engine accepts. The layout partitioner multiplies
/// a column's percentage (at most 100) by the interior width in 16 bits,
/// so the interior width must stay at or under 655 cells; the panel keeps
/// two more for its border.
pub const MAX_PANEL_WIDTH: u16 = 657;

/// One laid-out column of the directory panel: the rectangle its names
/// occupy, the narrowed rectangle for its right-aligned sizes, and its
/// window of the display entries.
pub struct Column {
    pub rect: Rect,
    pub size_rect: Rect,
    pub entries: Vec<DisplayEntry>,
}

/// The rows of entries each column holds: the viewport height minus the
/// two border rows, clamped to at least one row.
pub open spec fn rows_per_column_of(viewport_height: int) -> int {
    if viewport_height >= 3 {
        viewport_height - 2
    } else {
        1
    }
}

/// How many columns `n` entries need at `rows` entries per column: the
/// quotient of `n` by `rows`, rounded up.
pub open spec fn column_count_of(n: int, rows: int) -> int
    recommends
        n >= 0,
        rows >= 1,
{
    (n + rows - 1) / rows
}

/// The window of `entries` that column `i` shows: entries
/// `[i * rows, (i + 1) * rows)`, cut short at the end of the sequence.
pub open spec fn column_slice(entries: Seq<EntryModel>, rows: int, i: int) -> Seq<EntryModel>
    recommends
        rows >= 1,
        0 <= i < column_count_of(entries.len() as int, rows),
{
    entries.subrange(
        i * rows,
        if (i + 1) * rows <= entries.len() {
            (i + 1) * rows
        } else {
            entries.len() as int
        },
    )
}

/// Whether the entry at flat index `i` is the selection. An index at or
/// past the end of the listing selects nothing: emphasis is skipped
/// rather than failing.
pub open spec fn emphasized_at(selected: Option<usize>, i: int) -> bool {
    match selected {
        Some(s) => i == s as int,
        None => false,
    }
}

/// The entries with the selection marked: labels kept, and exactly the
/// entry at the selected flat index emphasized.
pub open spec fn marked_models(entries: Seq<EntryModel>, selected: Option<usize>) -> Seq<
    EntryModel,
> {
    Seq::new(
        entries.len(),
        |i: int|
            EntryModel {
                label: entries[i].label,
                size_label: entries[i].size_label,
                emphasized: emphasized_at(selected, i),
            },
    )
}

/// The percentage width every column receives, of `count` equal columns.
pub open spec fn column_percent_of(count: int) -> int
    recommends
        count >= 1,
{
    100int / count
}

/// The usable entry rows of a panel of the given height.
pub fn rows_per_column(viewport_height: u16) -> (r: u16)
    ensures
        r as int == rows_per_column_of(viewport_height as int),
{
    if viewport_height >= 3 {
        viewport_height - 2
    } else {
        1
    }
}

/// Facts about the rounded-up quotient: how it relates to the truncating
/// quotient, and the bounds the slicing loop needs.
proof fn lemma_ceil_div(n: int, rows: int)
    requires
        n >= 0,
        rows >= 1,
    ensures
        column_count_of(n, rows) == n / rows + if n % rows == 0 {
            0int
        } else {
            1int
        },
        column_count_of(n, rows) * rows >= n,
        column_count_of(n, rows) >= 0,
        n > 0 ==> column_count_of(n, rows) >= 1,
        n > 0 ==> (column_count_of(n, rows) - 1) * rows < n,
        n % rows != 0 ==> n / rows < n,
{
    let q = n / rows;
    let r = n % rows;
    lemma_fundamental_div_mod(n, rows);
    assert(n == rows * q + r);
    if r == 0 {
        assert(n + rows - 1 == q * rows + (rows - 1)) by (nonlinear_arith)
            requires
                n == rows * q + r,
                r == 0,
        ;
        lemma_fundamental_div_mod_converse(n + rows - 1, rows, q, rows - 1);
        assert(column_count_of(n, rows) == q);
        assert(q * rows == n) by (nonlinear_arith)
            requires
                n == rows * q + r,
                r == 0,
        ;
        if n > 0 {
            assert(q >= 1) by (nonlinear_arith)
                requires
                    q * rows == n,
                    n > 0,
                    rows >= 1,
            ;
            assert((q - 1) * rows < n) by (nonlinear_arith)
                requires
                    q * rows == n,
                    rows >= 1,
            ;
        }
    } else {
        assert(n + rows - 1 == (q + 1) * rows + (r - 1)) by (nonlinear_arith)
            requires
                n == rows * q + r,
        ;
        lemma_fundamental_div_mod_converse(n + rows - 1, rows, q + 1, r - 1);
        assert(column_count_of(n, rows) == q + 1);
        assert((q + 1) * rows >= n && q * rows < n) by (nonlinear_arith)
            requires
                n == rows * q + r,
                0 < r < rows,
        ;
        assert(q >= 0) by (nonlinear_arith)
            requires
                n == rows * q + r,
                n >= 0,
                rows >= 1,
                0 < r < rows,
        ;
        assert(q < n) by (nonlinear_arith)
            requires
                n == rows * q + r,
                q >= 0,
                rows >= 1,
                r > 0,
        ;
    }
}

/// How many columns are needed for `n` entries at `rows` entries each.
pub fn column_count(n: usize, rows: usize) -> (r: usize)
    requires
        rows >= 1,
    ensures
        r as int == column_count_of(n as int, rows as int),
{
    let q = n / rows;
    let rem = n % rows;
    proof {
        lemma_ceil_div(n as int, rows as int);
    }
    if rem == 0 {
        q
    } else {
        q + 1
    }
}

/// Marks the selection: every entry keeps its labels, and exactly the
/// entry at the selected flat index is emphasized. A selection at or past
/// the end of the listing emphasizes nothing.
pub fn mark_selected(entries: &Vec<DisplayEntry>, selected: &Option<usize>) -> (r: Vec<
    DisplayEntry,
>)
    ensures
        r@.len() == entries@.len(),
        models_of(r@) == marked_models(models_of(entries@), *selected),
{
    let mut out: Vec<DisplayEntry> = Vec::new();
    let n = entries.len();
    let mut i: usize = 0;
    while i < n
        invariant
            n == entries@.len(),
            0 <= i <= n,
            out@.len() == i,
            forall|j: int|
                0 <= j < i ==> out@[j]@ == marked_models(models_of(entries@), *selected)[j],
        decreases n - i,
    {
        let emphasized = match selected {
            Some(s) => *s == i,
            None => false,
        };
        let e = &entries[i];
        out.push(DisplayEntry { label: e.label.clone(), size_label: e.size_label.clone(), emphasized });
        i += 1;
    }
    proof {
        assert(models_of(out@) =~= marked_models(models_of(entries@), *selected));
    }
    out
}

/// Distributes the entries column-major: column `i` receives the window
/// `[i * rows, (i + 1) * rows)`, cut short at the end of the listing.
pub fn slice_columns(entries: &Vec<DisplayEntry>, rows: usize) -> (cols: Vec<Vec<DisplayEntry>>)
    requires
        rows >= 1,
    ensures
        cols@.len() == column_count_of(entries@.len() as int, rows as int),
        forall|i: int|
            0 <= i < cols@.len() ==> models_of(#[trigger] cols@[i]@) == column_slice(
                models_of(entries@),
                rows as int,
                i,
            ),
{
    let n = entries.len();
    let count = column_count(n, rows);
    let mut cols: Vec<Vec<DisplayEntry>> = Vec::new();
    let mut i: usize = 0;
    while i < count
        invariant
            rows >= 1,
            n == entries@.len(),
            count as int == column_count_of(n as int, rows as int),
            0 <= i <= count,
            cols@.len() == i,
            forall|j: int|
                0 <= j < i ==> models_of(#[trigger] cols@[j]@) == column_slice(
                    models_of(entries@),
                    rows as int,
                    j,
                ),
        decreases count - i,
    {
        proof {
            lemma_ceil_div(n as int, rows as int);
            lemma_mul_inequality(i as int, count as int - 1, rows as int);
            assert((i as int) * (rows as int) < n as int);
            assert((i as int + 1) * (rows as int) == (i as int) * (rows as int) + rows as int)
                by (nonlinear_arith);
        }
        let from = i * rows;
        let to = if n - from < rows {
            n
        } else {
            from + rows
        };
        let mut col: Vec<DisplayEntry> = Vec::new();
        let mut k = from;
        while k < to
            invariant
                n == entries@.len(),
                from <= k <= to <= n,
                col@.len() == k - from,
                forall|j: int|
                    0 <= j < k - from ==> #[trigger] col@[j]@ == models_of(entries@)[from + j],
            decreases to - k,
        {
            col.push(entries[k].duplicate());
            k += 1;
        }
        proof {
            assert(models_of(col@) =~= column_slice(models_of(entries@), rows as int, i as int));
        }
        cols.push(col);
        i += 1;
    }
    cols
}

/// The sizing rules for `count` equal columns, each a percentage rule of
/// `100 / count` percent.
fn percent_constraints(count: usize) -> (r: Vec<SplitConstraint>)
    requires
        count >= 1,
    ensures
        r@.len() == count,
        forall|i: int|
            0 <= i < count ==> #[trigger] r@[i] == SplitConstraint::Percentage(
                column_percent_of(count as int) as u16,
            ),
{
    let percent: u16 = (100 / count) as u16;
    let mut out: Vec<SplitConstraint> = Vec::new();
    let mut i: usize = 0;
    while i < count
        invariant
            count >= 1,
            percent as int == 100int / count as int,
            0 <= i <= count,
            out@.len() == i,
            forall|j: int| 0 <= j < i ==> #[trigger] out@[j] == SplitConstraint::Percentage(percent),
        decreases count - i,
    {
        out.push(SplitConstraint::Percentage(percent));
        i += 1;
    }
    out
}

/// Clips each rectangle's width against every later rectangle's
/// position, so no two of the returned rectangles can share a column of
/// cells. Rectangles the partitioner already laid out in disjoint
/// left-to-right order come back unchanged, and the last one always does.
fn disjoint_widths(rects: &Vec<Rect>) -> (r: Vec<Rect>)
    ensures
        r@.len() == rects@.len(),
        forall|i: int|
            0 <= i < r@.len() ==> {
                &&& (#[trigger] r@[i]).x == rects@[i].x
                &&& r@[i].y == rects@[i].y
                &&& r@[i].height == rects@[i].height
                &&& r@[i].width <= rects@[i].width
            },
        forall|i: int, j: int| 0 <= i < j < r@.len() ==> #[trigger] spans_disjoint(r@[i], r@[j]),
        r@.len() > 0 ==> r@.last() == rects@.last(),
{
    let n = rects.len();
    let mut out: Vec<Rect> = Vec::new();
    let mut min_x: u16 = 0;
    let mut i = n;
    while i > 0
        invariant
            n == rects@.len(),
            0 <= i <= n,
            out@.len() == n - i,
            forall|k: int|
                0 <= k < n - i ==> {
                    &&& (#[trigger] out@[k]).x == rects@[i + k].x
                    &&& out@[k].y == rects@[i + k].y
                    &&& out@[k].height == rects@[i + k].height
                    &&& out@[k].width <= rects@[i + k].width
                },
            forall|k: int| 0 <= k < n - i ==> min_x <= (#[trigger] out@[k]).x,
            forall|k1: int, k2: int|
                0 <= k1 < k2 < n - i ==> #[trigger] spans_disjoint(out@[k1], out@[k2]),
            n - i > 0 ==> out@.last() == rects@.last(),
        decreases i,
    {
        i -= 1;
        let cur = rects[i];
        if out.len() == 0 {
            out.insert(0, cur);
            min_x = cur.x;
        } else {
            let cap: u16 = if min_x > cur.x {
                min_x - cur.x
            } else {
                0
            };
            let width: u16 = if cur.width < cap {
                cur.width
            } else {
                cap
            };
            out.insert(0, Rect { x: cur.x, y: cur.y, width, height: cur.height });
            if cur.x < min_x {
                min_x = cur.x;
            }
        }
    }
    out
}

/// Lays the formatted entries out in columns inside `area`: marks the
/// selection, computes the column count from the usable height, asks the
/// layout partitioner for one equal-percentage sub-rectangle per column
/// within the panel's interior, and windows the entries column-major. An
/// empty listing yields no columns. Every column gets the same
/// `100 / count` percentage; the partitioner extends the last column to
/// the interior's far edge, so a rounding remainder leaves no gap, and
/// the returned widths are clipped so that no two columns share a cell.
pub fn layout_columns(entries: &Vec<DisplayEntry>, area: Rect, selected: &Option<usize>) -> (cols:
    Vec<Column>)
    requires
        area.width <= MAX_PANEL_WIDTH,
    ensures
        ({
            let n = entries@.len() as int;
            let rows = rows_per_column_of(area.height as int);
            let count = column_count_of(n, rows);
            let marked = marked_models(models_of(entries@), *selected);
            &&& cols@.len() == count
            &&& forall|i: int|
                0 <= i < count ==> models_of(#[trigger] cols@[i].entries@) == column_slice(
                    marked,
                    rows,
                    i,
                )
            &&& forall|i: int|
                0 <= i < count ==> (#[trigger] cols@[i].size_rect) == cols@[i].rect.narrowed_spec()
            &&& forall|i: int, j: int|
                0 <= i < j < count ==> #[trigger] spans_disjoint(cols@[i].rect, cols@[j].rect)
            &&& forall|i: int|
                0 <= i < count ==> {
                    let inner = area.inner_spec();
                    &&& (#[trigger] cols@[i].rect).x >= inner.x
                    &&& cols@[i].rect.x + cols@[i].rect.width <= inner.x + inner.width
                    &&& cols@[i].rect.y == inner.y
                    &&& cols@[i].rect.height == inner.height
                }
            &&& (n > 0 ==> ({
                let inner = area.inner_spec();
                let last = cols@[count - 1].rect;
                last.x + last.width == if inner.x + inner.width <= u16::MAX {
                    inner.x + inner.width
                } else {
                    u16::MAX as int
                }
            }))
        }),
{
    let n = entries.len();
    let mut cols: Vec<Column> = Vec::new();
    if n == 0 {
        proof {
            let rows = rows_per_column_of(area.height as int);
            assert((0 + rows - 1) / rows == 0) by (nonlinear_arith)
                requires
                    rows >= 1,
            ;
        }
        return cols;
    }
    let rows_u16 = rows_per_column(area.height);
    let rows = rows_u16 as usize;
    let count = column_count(n, rows);
    let marked = mark_selected(entries, selected);
    let mut slices = slice_columns(&marked, rows);
    proof {
        lemma_ceil_div(n as int, rows as int);
    }
    let constraints = percent_constraints(count);
    let inner = area.inner();
    proof {
        let p = 100int / count as int;
        lemma_div_pos_is_pos(100int, count as int);
        lemma_div_is_ordered_by_denominator(100int, 1, count as int);
        assert(0 <= p <= 100);
        assert forall|i: int| 0 <= i < constraints@.len() implies ((
        #[trigger] constraints@[i]) matches SplitConstraint::Percentage(pp) ==> pp as int
            * inner.width as int <= u16::MAX as int) by {
            assert(constraints@[i] == SplitConstraint::Percentage(p as u16));
            assert(p * inner.width as int <= 100 * 655) by (nonlinear_arith)
                requires
                    0 <= p <= 100,
                    inner.width <= 655,
            ;
        }
    }
    let solved = split_area(inner, true, &constraints);
    let rects = disjoint_widths(&solved);
    let ghost all_slices = slices@;
    let mut i: usize = 0;
    while i < count
        invariant
            count >= 1,
            cols@.len() == i,
            0 <= i <= count,
            rects@.len() == count,
            slices@.len() == count - i,
            all_slices.len() == count,
            forall|j: int| 0 <= j < count - i ==> slices@[j] == all_slices[i + j],
            forall|j: int| 0 <= j < i ==> (#[trigger] cols@[j].entries)@ == all_slices[j]@,
            forall|j: int|
                0 <= j < i ==> (#[trigger] cols@[j].rect) == rects@[j] && cols@[j].size_rect
                    == rects@[j].narrowed_spec(),
            forall|j1: int, j2: int|
                0 <= j1 < j2 < count ==> #[trigger] spans_disjoint(rects@[j1], rects@[j2]),
            forall|j: int|
                0 <= j < count ==> {
                    &&& (#[trigger] rects@[j]).x >= inner.x
                    &&& rects@[j].x + rects@[j].width <= inner.x + inner.width
                    &&& rects@[j].y == inner.y
                    &&& rects@[j].height == inner.height
                },
            count > 0 ==> rects@[count - 1].x + rects@[count - 1].width == (
            if inner.x + inner.width <= u16::MAX {
                inner.x + inner.width
            } else {
                u16::MAX as int
            }),
            inner == area.inner_spec(),
        decreases count - i,
    {
        let rect = rects[i];
        let size_rect = rect.narrowed();
        let slice = slices.remove(0);
        cols.push(Column { rect, size_rect, entries: slice });
        i += 1;
    }
    proof {
        let rows_i = rows_per_column_of(area.height as int);
        let marked_m = marked_models(models_of(entries@), *selected);
        assert forall|j: int| 0 <= j < count implies models_of(
            #[trigger] cols@[j].entries@,
        ) == column_slice(marked_m, rows_i, j) by {
            assert(cols@[j].entries@ == all_slices[j]@);
            assert(models_of(all_slices[j]@) == column_slice(models_of(marked@), rows_i, j));
        }
    }
    cols
}

/// Law: for a fixed viewport height, more entries never need fewer
/// columns.
pub proof fn lemma_column_count_monotone(n1: int, n2: int, viewport_height: int)
    requires
        0 <= n1 <= n2,
    ensures
        column_count_of(n1, rows_per_column_of(viewport_height)) <= column_count_of(
            n2,
            rows_per_column_of(viewport_height),
        ),
{
    let rows = rows_per_column_of(viewport_height);
    lemma_div_is_ordered(n1 + rows - 1, n2 + rows - 1, rows);
}

/// The concatenation of the first `k` column windows, in column order.
pub open spec fn concat_columns(entries: Seq<EntryModel>, rows: int, k: int) -> Seq<EntryModel>
    recommends
        rows >= 1,
        0 <= k <= column_count_of(entries.len() as int, rows),
    decreases k,
{
    if k <= 0 {
        Seq::empty()
    } else {
        concat_columns(entries, rows, k - 1) + column_slice(entries, rows, k - 1)
    }
}

/// The first `k` column windows together hold exactly the first
/// `k * rows` entries (all of them once `k * rows` passes the end).
proof fn lemma_concat_columns_prefix(entries: Seq<EntryModel>, rows: int, k: int)
    requires
        rows >= 1,
        0 <= k <= column_count_of(entries.len() as int, rows),
    ensures
        concat_columns(entries, rows, k) == entries.take(
            if k * rows <= entries.len() {
                k * rows
            } else {
                entries.len() as int
            },
        ),
    decreases k,
{
    let n = entries.len() as int;
    lemma_ceil_div(n, rows);
    if k <= 0 {
        assert(concat_columns(entries, rows, k) =~= entries.take(0));
    } else {
        lemma_concat_columns_prefix(entries, rows, k - 1);
        assert((k - 1) * rows == k * rows - rows) by (nonlinear_arith);
        if n > 0 {
            lemma_mul_inequality(k - 1, column_count_of(n, rows) - 1, rows);
        }
        assert(concat_columns(entries, rows, k) =~= entries.take(
            if k * rows <= n {
                k * rows
            } else {
                n
            },
        ));
    }
}

/// Law: the concatenation of all columns' entry windows, in column order,
/// reconstructs the entry sequence exactly, with nothing repeated and
/// nothing left out.
pub proof fn lemma_columns_cover(entries: Seq<EntryModel>, rows: int)
    requires
        rows >= 1,
    ensures
        concat_columns(entries, rows, column_count_of(entries.len() as int, rows)) == entries,
{
    let n = entries.len() as int;
    let count = column_count_of(n, rows);
    lemma_ceil_div(n, rows);
    lemma_concat_columns_prefix(entries, rows, count);
    assert(entries.take(
        if count * rows <= n {
            count * rows
        } else {
            n
        },
    ) =~= entries);
}

/// Law: for a selection index within the listing, exactly one marked
/// entry is emphasized: the one at that flat index, with its labels kept.
/// It stands in column `selected / rows`, at offset `selected % rows`.
pub proof fn lemma_single_emphasis(entries: Seq<EntryModel>, selected: usize, rows: int)
    requires
        rows >= 1,
        (selected as int) < entries.len(),
    ensures
        ({
            let marked = marked_models(entries, Some(selected));
            let col = selected as int / rows;
            let off = selected as int % rows;
            &&& forall|j: int|
                0 <= j < marked.len() ==> ((#[trigger] marked[j].emphasized) <==> j
                    == selected as int)
            &&& marked[selected as int].label == entries[selected as int].label
            &&& 0 <= col < column_count_of(entries.len() as int, rows)
            &&& 0 <= off < column_slice(marked, rows, col).len()
            &&& column_slice(marked, rows, col)[off] == marked[selected as int]
        }),
{
    let marked = marked_models(entries, Some(selected));
    let n = entries.len() as int;
    let s = selected as int;
    let col = s / rows;
    let off = s % rows;
    lemma_ceil_div(n, rows);
    lemma_fundamental_div_mod(s, rows);
    assert(s == rows * col + off);
    assert(col >= 0 && 0 <= off < rows) by (nonlinear_arith)
        requires
            s == rows * col + off,
            0 <= s,
            rows >= 1,
            off == s % rows,
            col == s / rows,
    ;
    assert(col * rows <= s && s < (col + 1) * rows) by (nonlinear_arith)
        requires
            s == rows * col + off,
            0 <= off < rows,
    ;
    assert(col < column_count_of(n, rows)) by {
        if col >= column_count_of(n, rows) {
            lemma_mul_inequality(column_count_of(n, rows), col, rows);
            assert(column_count_of(n, rows) * rows >= n);
        }
    }
}

/// Law: a selection index at or past the end of the listing emphasizes
/// nothing; the marking degrades to a no-op instead of failing.
pub proof fn lemma_out_of_range_selection(entries: Seq<EntryModel>, selected: usize)
    requires
        (selected as int) >= entries.len(),
    ensures
        forall|j: int|
            0 <= j < entries.len() ==> !(#[trigger] marked_models(
                entries,
                Some(selected),
            )[j].emphasized),
{
}

} // verus!
