//! Laying out an inflection table as a dense grid: each source cell claims
//! the rectangle of coordinates its row and column spans cover, placed first
//! fit and never over a coordinate that an earlier cell claimed.
use vstd::prelude::*;
use crate::text::{all_digits, digits_value, parse_positive};

verus! {

#[derive(Debug, PartialEq, Eq, Structural, Clone, Copy)]
pub enum TableCellType {
    Header,
    Data,
}

/// A cell as it stands in the source table, with its span attributes as
/// written (`None` where the attribute is absent).
#[derive(Debug, Clone)]
pub struct RawCell {
    pub cell_type: TableCellType,
    pub content: String,
    pub rowspan: Option<String>,
    pub colspan: Option<String>,
}

/// One grid coordinate and the source cell that claims it.
#[derive(Debug, Clone)]
pub struct TableCell {
    pub cell_type: TableCellType,
    pub content: String,
    pub x: usize,
    pub y: usize,
}

/// A laid-out table: its title and every claimed coordinate.
#[derive(Debug, Clone)]
pub struct Table {
    pub title: String,
    pub cells: Vec<TableCell>,
}

#[derive(Debug, PartialEq, Eq, Structural, Clone, Copy)]
pub enum GridError {
    /// A row or column span that is not a positive integer.
    Format,
    /// A coordinate that would not fit in `usize`.
    TooLarge,
}

/// A span attribute that is absent or a positive integer.
pub open spec fn span_valid(a: Option<String>) -> bool {
    match a {
        None => true,
        Some(s) => s@.len() > 0 && all_digits(s@) && 0 < digits_value(s@) <= usize::MAX,
    }
}

/// The extent a span attribute gives: one where it is absent.
pub open spec fn span_value(a: Option<String>) -> int {
    match a {
        None => 1,
        Some(s) => digits_value(s@) as int,
    }
}

pub open spec fn spans_valid(rows: Seq<Vec<RawCell>>) -> bool {
    forall|r: int, k: int|
        0 <= r < rows.len() && 0 <= k < rows[r]@.len() ==> {
            &&& span_valid(#[trigger] rows[r]@[k].rowspan)
            &&& span_valid(rows[r]@[k].colspan)
        }
}

/// No two cells claim the same coordinate.
pub open spec fn coordinates_unique(cells: Seq<TableCell>) -> bool {
    forall|i: int, j: int|
        0 <= i < j < cells.len() ==> !(#[trigger] cells[i].x == #[trigger] cells[j].x && cells[i].y
            == cells[j].y)
}

/// The cell at `(x, y)` is claimed by some source cell of row `r` whose
/// row span covers `y`.
pub open spec fn claimed_from(rows: Seq<Vec<RawCell>>, c: TableCell, r: int, k: int) -> bool {
    &&& 0 <= r < rows.len()
    &&& 0 <= k < rows[r]@.len()
    &&& c.cell_type == rows[r]@[k].cell_type
    &&& c.content@ == rows[r]@[k].content@
    &&& r <= c.y < r + span_value(rows[r]@[k].rowspan)
}

pub open spec fn has_source(rows: Seq<Vec<RawCell>>, c: TableCell) -> bool {
    exists|r: int, k: int| claimed_from(rows, c, r, k)
}

/// Source cell `k` of row `r` claims a coordinate in its own row.
pub open spec fn source_placed(rows: Seq<Vec<RawCell>>, cells: Seq<TableCell>, r: int, k: int) -> bool {
    exists|i: int| 0 <= i < cells.len() && #[trigger] claimed_from(rows, cells[i], r, k) && cells[i].y == r
}

/// Every coordinate of the rectangle `w` wide and `h` high at `(x, y)` is claimed.
pub open spec fn rect_claimed(cells: Seq<TableCell>, x: int, y: int, w: int, h: int) -> bool {
    forall|dx: int, dy: int|
        0 <= dx < w && 0 <= dy < h ==> #[trigger] is_claimed_at(cells, x + dx, y + dy)
}

/// Source cell `k` of row `r` is placed in its own row, at an origin whose
/// whole span rectangle is claimed: by itself, or, where an earlier cell
/// got there first, by that cell.
pub open spec fn source_covered(rows: Seq<Vec<RawCell>>, cells: Seq<TableCell>, r: int, k: int) -> bool {
    exists|i: int|
        0 <= i < cells.len() && #[trigger] claimed_from(rows, cells[i], r, k) && cells[i].y == r
            && rect_claimed(
            cells,
            cells[i].x as int,
            r,
            span_value(rows[r]@[k].colspan),
            span_value(rows[r]@[k].rowspan),
        )
}

pub(crate) proof fn lemma_claims_persist(old: Seq<TableCell>, new: Seq<TableCell>)
    requires
        old.len() <= new.len(),
        forall|i: int| 0 <= i < old.len() ==> new[i] == old[i],
    ensures
        forall|x: int, y: int| #[trigger] is_claimed_at(old, x, y) ==> is_claimed_at(new, x, y),
{
    assert forall|x: int, y: int| #[trigger] is_claimed_at(old, x, y) implies is_claimed_at(new, x, y) by {
        let i = choose|i: int| 0 <= i < old.len() && #[trigger] old[i].x == x && old[i].y == y;
        assert(new[i] == old[i]);
    }
}

pub open spec fn is_claimed_at(cells: Seq<TableCell>, x: int, y: int) -> bool {
    exists|i: int| 0 <= i < cells.len() && #[trigger] cells[i].x == x && cells[i].y == y
}

/// The column spans of the first `k` cells of a row, summed.
pub open spec fn row_width(row: Seq<RawCell>, k: int) -> int
    decreases k,
{
    if k <= 0 {
        0
    } else {
        row_width(row, k - 1) + span_value(row[k - 1].colspan)
    }
}

/// The row spans of the first `k` cells of a row, summed.
pub open spec fn row_depth(row: Seq<RawCell>, k: int) -> int
    decreases k,
{
    if k <= 0 {
        0
    } else {
        row_depth(row, k - 1) + span_value(row[k - 1].rowspan)
    }
}

/// The column spans of the first `n` rows, summed.
pub open spec fn widths_before(rows: Seq<Vec<RawCell>>, n: int) -> int
    decreases n,
{
    if n <= 0 {
        0
    } else {
        widths_before(rows, n - 1) + row_width(rows[n - 1]@, rows[n - 1]@.len() as int)
    }
}

/// One per row plus every row and column span of the first `n` rows: a
/// bound on every coordinate the layout reaches.
pub open spec fn extent_of(rows: Seq<Vec<RawCell>>, n: int) -> int
    decreases n,
{
    if n <= 0 {
        0
    } else {
        extent_of(rows, n - 1) + 1 + row_width(rows[n - 1]@, rows[n - 1]@.len() as int) + row_depth(
            rows[n - 1]@,
            rows[n - 1]@.len() as int,
        )
    }
}

pub open spec fn extent(rows: Seq<Vec<RawCell>>) -> int {
    extent_of(rows, rows.len() as int)
}

proof fn lemma_row_nonneg(row: Seq<RawCell>, k: int)
    ensures
        row_width(row, k) >= 0,
        row_depth(row, k) >= 0,
    decreases k,
{
    if k > 0 {
        lemma_row_nonneg(row, k - 1);
    }
}

pub(crate) proof fn lemma_row_sums(row: Seq<RawCell>, k: int, n: int)
    requires
        0 <= k <= n <= row.len(),
    ensures
        0 <= row_width(row, k) <= row_width(row, n),
        0 <= row_depth(row, k) <= row_depth(row, n),
        k < n ==> row_depth(row, n) >= row_depth(row, k) + span_value(row[k].rowspan),
    decreases n,
{
    lemma_row_nonneg(row, k);
    if n > k {
        lemma_row_sums(row, k, n - 1);
        if k < n - 1 {
            lemma_row_sums(row, k + 1, n - 1);
        }
    }
}

pub(crate) proof fn lemma_extent_grows(rows: Seq<Vec<RawCell>>, m: int, n: int)
    requires
        0 <= m <= n <= rows.len(),
    ensures
        0 <= widths_before(rows, m) <= widths_before(rows, n),
        0 <= extent_of(rows, m) <= extent_of(rows, n),
        extent_of(rows, n) >= widths_before(rows, n) + n,
    decreases n,
{
    if n > 0 {
        lemma_extent_grows(rows, if m < n { m } else { n - 1 }, n - 1);
        lemma_row_sums(rows[n - 1]@, 0, rows[n - 1]@.len() as int);
    }
}

pub(crate) fn parse_span(a: &Option<String>) -> (r: Option<usize>)
    ensures
        r is Some <==> span_valid(*a),
        r is Some ==> r->0 == span_value(*a),
{
    match a {
        None => Some(1),
        Some(s) => parse_positive(s.as_str()),
    }
}

/// The first column from `x` on that no cell claims in row `y`; every cell
/// lies left of `bound`, so the column is at most `bound`.
pub(crate) fn first_free(cells: &Vec<TableCell>, x: usize, y: usize, bound: usize) -> (r: usize)
    requires
        x <= bound,
        forall|i: int| 0 <= i < cells@.len() ==> (#[trigger] cells@[i]).x < bound,
    ensures
        x <= r <= bound,
        !is_claimed_at(cells@, r as int, y as int),
        forall|c: int| x <= c < r ==> #[trigger] is_claimed_at(cells@, c, y as int),
{
    let mut cur = x;
    while is_claimed(cells, cur, y)
        invariant
            x <= cur <= bound,
            forall|i: int| 0 <= i < cells@.len() ==> (#[trigger] cells@[i]).x < bound,
            forall|c: int| x <= c < cur ==> #[trigger] is_claimed_at(cells@, c, y as int),
        decreases bound - cur,
    {
        proof {
            if cur == bound {
                let i = choose|i: int|
                    0 <= i < cells@.len() && #[trigger] cells@[i].x == cur && cells@[i].y == y;
                assert(cells@[i].x < bound);
            }
        }
        cur = cur + 1;
    }
    cur
}

pub(crate) fn is_claimed(cells: &Vec<TableCell>, x: usize, y: usize) -> (r: bool)
    ensures
        r == is_claimed_at(cells@, x as int, y as int),
{
    let mut i: usize = 0;
    while i < cells.len()
        invariant
            0 <= i <= cells.len(),
            forall|j: int| 0 <= j < i ==> !(#[trigger] cells@[j].x == x && cells@[j].y == y),
        decreases cells.len() - i,
    {
        if cells[i].x == x && cells[i].y == y {
            return true;
        }
        i = i + 1;
    }
    false
}

/// Checks every span attribute of the table.
pub(crate) fn check_spans(rows: &Vec<Vec<RawCell>>) -> (r: bool)
    ensures
        r == spans_valid(rows@),
{
    let mut y: usize = 0;
    while y < rows.len()
        invariant
            0 <= y <= rows.len(),
            forall|r: int, k: int|
                0 <= r < y && 0 <= k < rows@[r]@.len() ==> {
                    &&& span_valid(#[trigger] rows@[r]@[k].rowspan)
                    &&& span_valid(rows@[r]@[k].colspan)
                },
        decreases rows.len() - y,
    {
        let row = &rows[y];
        let mut k: usize = 0;
        while k < row.len()
            invariant
                0 <= y < rows.len(),
                row == rows@[y as int],
                0 <= k <= row.len(),
                forall|r: int, k: int|
                    0 <= r < y && 0 <= k < rows@[r]@.len() ==> {
                        &&& span_valid(#[trigger] rows@[r]@[k].rowspan)
                        &&& span_valid(rows@[r]@[k].colspan)
                    },
                forall|j: int|
                    0 <= j < k ==> {
                        &&& span_valid(#[trigger] row@[j].rowspan)
                        &&& span_valid(row@[j].colspan)
                    },
            decreases row.len() - k,
        {
            if parse_span(&row[k].rowspan).is_none() || parse_span(&row[k].colspan).is_none() {
                return false;
            }
            k = k + 1;
        }
        y = y + 1;
    }
    true
}

/// Whether every coordinate the layout may reach fits in `usize`.
fn extent_fits(rows: &Vec<Vec<RawCell>>) -> (r: bool)
    requires
        spans_valid(rows@),
    ensures
        r == (extent(rows@) <= usize::MAX),
{
    let mut total: usize = 0;
    let mut y: usize = 0;
    while y < rows.len()
        invariant
            0 <= y <= rows.len(),
            spans_valid(rows@),
            total == extent_of(rows@, y as int),
        decreases rows.len() - y,
    {
        let row = &rows[y];
        proof {
            lemma_extent_grows(rows@, y as int + 1, rows@.len() as int);
            lemma_row_sums(row@, 0, row@.len() as int);
        }
        if total == usize::MAX {
            return false;
        }
        total = total + 1;
        let mut k: usize = 0;
        while k < row.len()
            invariant
                0 <= y < rows.len(),
                row == rows@[y as int],
                0 <= k <= row.len(),
                spans_valid(rows@),
                total == extent_of(rows@, y as int) + 1 + row_width(row@, k as int) + row_depth(row@, k as int),
                extent_of(rows@, y + 1) <= extent(rows@),
            decreases row.len() - k,
        {
            proof {
                lemma_row_sums(row@, k + 1, row@.len() as int);
            }
            assert(span_valid(rows@[y as int]@[k as int].rowspan));
            let h = parse_span(&row[k].rowspan).unwrap();
            let w = parse_span(&row[k].colspan).unwrap();
            if total > usize::MAX - w {
                return false;
            }
            total = total + w;
            if total > usize::MAX - h {
                return false;
            }
            total = total + h;
            k = k + 1;
        }
        y = y + 1;
    }
    true
}

/// Lays out `rows` as a grid. Within each row a cursor starts at column 0;
/// each cell is placed at the first column from the cursor that no earlier
/// cell claims, claims every still unclaimed coordinate of its span
/// rectangle, and moves the cursor past its column span. A span that is
/// not a positive integer is a format error; a table whose spans could
/// reach past `usize` is too large.
pub fn build_grid(title: String, rows: &Vec<Vec<RawCell>>) -> (r: Result<Table, GridError>)
    ensures
        r matches Err(GridError::Format) <==> !spans_valid(rows@),
        r matches Err(GridError::TooLarge) <==> spans_valid(rows@) && extent(rows@) > usize::MAX,
        r is Ok ==> {
            &&& r->Ok_0.title == title
            &&& coordinates_unique(r->Ok_0.cells@)
            &&& forall|i: int|
                0 <= i < r->Ok_0.cells@.len() ==> has_source(rows@, #[trigger] r->Ok_0.cells@[i])
            &&& forall|r0: int, k: int|
                0 <= r0 < rows@.len() && 0 <= k < rows@[r0]@.len() ==> #[trigger] source_covered(
                    rows@,
                    r->Ok_0.cells@,
                    r0,
                    k,
                )
        },
{
    if !check_spans(rows) {
        return Err(GridError::Format);
    }
    if !extent_fits(rows) {
        return Err(GridError::TooLarge);
    }
    let mut cells: Vec<TableCell> = Vec::new();
    let mut bound: usize = 0;
    let mut y: usize = 0;
    while y < rows.len()
        invariant
            0 <= y <= rows.len(),
            spans_valid(rows@),
            extent(rows@) <= usize::MAX,
            bound == widths_before(rows@, y as int),
            forall|i: int| 0 <= i < cells@.len() ==> (#[trigger] cells@[i]).x < bound,
            coordinates_unique(cells@),
            forall|i: int| 0 <= i < cells@.len() ==> has_source(rows@, #[trigger] cells@[i]),
            forall|r0: int, k: int|
                0 <= r0 < y && 0 <= k < rows@[r0]@.len() ==> #[trigger] source_covered(rows@, cells@, r0, k),
        decreases rows.len() - y,
    {
        let row = &rows[y];
        proof {
            lemma_extent_grows(rows@, y as int + 1, rows@.len() as int);
            lemma_extent_grows(rows@, y as int, y as int + 1);
            lemma_extent_grows(rows@, y as int, y as int);
        }
        let ghost row_start = bound as int;
        let mut x: usize = 0;
        let mut k: usize = 0;
        while k < row.len()
            invariant
                0 <= y < rows.len(),
                row == rows@[y as int],
                0 <= k <= row.len(),
                spans_valid(rows@),
                extent(rows@) <= usize::MAX,
                row_start == widths_before(rows@, y as int),
                bound == row_start + row_width(row@, k as int),
                widths_before(rows@, y + 1) + y + 1 <= extent(rows@),
                extent_of(rows@, y + 1) <= extent(rows@),
                extent_of(rows@, y as int) >= y,
                x <= bound,
                forall|i: int| 0 <= i < cells@.len() ==> (#[trigger] cells@[i]).x < bound,
                coordinates_unique(cells@),
                forall|i: int| 0 <= i < cells@.len() ==> has_source(rows@, #[trigger] cells@[i]),
                forall|r0: int, k: int|
                    0 <= r0 < y && 0 <= k < rows@[r0]@.len() ==> #[trigger] source_covered(rows@, cells@, r0, k),
                forall|j: int| 0 <= j < k ==> #[trigger] source_covered(rows@, cells@, y as int, j),
            decreases row.len() - k,
        {
            let cell = &row[k];
            assert(span_valid(rows@[y as int]@[k as int].rowspan));
            let h = parse_span(&cell.rowspan).unwrap();
            let w = parse_span(&cell.colspan).unwrap();
            proof {
                lemma_row_sums(row@, k + 1, row@.len() as int);
                lemma_row_sums(row@, k as int, row@.len() as int);
            }
            assert(bound + w <= usize::MAX);
            assert(y + h <= usize::MAX);
            x = first_free(&cells, x, y, bound);
            let ghost origin = cells@.len() as int;
            let ghost cells0 = cells@;
            let mut dy: usize = 0;
            while dy < h
                invariant
                    0 <= dy <= h,
                    0 <= y < rows.len(),
                    row == rows@[y as int],
                    0 <= k < row.len(),
                    cell == row@[k as int],
                    h == span_value(cell.rowspan),
                    x <= bound,
                    bound + w <= usize::MAX,
                    y + h <= usize::MAX,
                    w >= 1,
                    forall|i: int| 0 <= i < cells@.len() ==> (#[trigger] cells@[i]).x < bound + w,
                    coordinates_unique(cells@),
                    forall|i: int| 0 <= i < cells@.len() ==> has_source(rows@, #[trigger] cells@[i]),
                    0 <= origin <= cells@.len(),
                    cells0 == cells@.subrange(0, origin),
                    !is_claimed_at(cells0, x as int, y as int),
                    dy == 0 ==> cells@.len() == origin,
                    w == span_value(cell.colspan),
                    forall|ddx: int, ddy: int|
                        0 <= ddx < w && 0 <= ddy < dy ==> #[trigger] is_claimed_at(cells@, x + ddx, y + ddy),
                    dy > 0 ==> origin < cells@.len() && claimed_from(rows@, cells@[origin], y as int, k as int) && cells@[origin].y == y && cells@[origin].x == x,
                decreases h - dy,
            {
                let mut dx: usize = 0;
                while dx < w
                    invariant
                        0 <= dx <= w,
                        0 <= dy < h,
                        0 <= y < rows.len(),
                        row == rows@[y as int],
                        0 <= k < row.len(),
                        cell == row@[k as int],
                        h == span_value(cell.rowspan),
                        x <= bound,
                        bound + w <= usize::MAX,
                        y + h <= usize::MAX,
                        w >= 1,
                        forall|i: int| 0 <= i < cells@.len() ==> (#[trigger] cells@[i]).x < bound + w,
                        coordinates_unique(cells@),
                        forall|i: int|
                            0 <= i < cells@.len() ==> has_source(rows@, #[trigger] cells@[i]),
                        0 <= origin <= cells@.len(),
                        cells0 == cells@.subrange(0, origin),
                        !is_claimed_at(cells0, x as int, y as int),
                        (dy == 0 && dx == 0) ==> cells@.len() == origin,
                        w == span_value(cell.colspan),
                        forall|ddx: int, ddy: int|
                            0 <= ddx < w && 0 <= ddy < dy ==> #[trigger] is_claimed_at(cells@, x + ddx, y + ddy),
                        forall|ddx: int| 0 <= ddx < dx ==> #[trigger] is_claimed_at(cells@, x + ddx, y + dy),
                        (dy > 0 || dx > 0) ==> origin < cells@.len() && claimed_from(rows@, cells@[origin], y as int, k as int) && cells@[origin].y == y && cells@[origin].x == x,
                    decreases w - dx,
                {
                    let cx = x + dx;
                    let cy = y + dy;
                    if !is_claimed(&cells, cx, cy) {
                        let c = TableCell {
                            cell_type: cell.cell_type,
                            content: cell.content.clone(),
                            x: cx,
                            y: cy,
                        };
                        assert(claimed_from(rows@, c, y as int, k as int));
                        let ghost before = cells@;
                        cells.push(c);
                        assert(forall|i: int| 0 <= i < before.len() ==> cells@[i] == before[i]);
                        proof {
                            lemma_claims_persist(before, cells@);
                            let last = before.len() as int;
                            assert(cells@[last].x == cx && cells@[last].y == cy);
                            assert(is_claimed_at(cells@, cx as int, cy as int));
                            assert forall|ddx: int, ddy: int|
                                0 <= ddx < w && 0 <= ddy < dy implies #[trigger] is_claimed_at(cells@, x + ddx, y + ddy) by {
                                assert(is_claimed_at(before, x + ddx, y + ddy));
                            }
                            assert forall|ddx: int| 0 <= ddx < dx implies #[trigger] is_claimed_at(cells@, x + ddx, y + dy) by {
                                assert(is_claimed_at(before, x + ddx, y + dy));
                            }
                        }
                        assert(origin <= before.len());
                        assert forall|i: int| 0 <= i < origin implies #[trigger] cells@.subrange(0, origin)[i] == cells0[i] by {
                            assert(before.subrange(0, origin)[i] == before[i]);
                        }
                        assert(cells@.subrange(0, origin) =~= cells0);
                    } else {
                        proof {
                            assert(is_claimed_at(cells@, cx as int, cy as int));
                            if dy == 0 && dx == 0 {
                                let i = choose|i: int|
                                    0 <= i < cells@.len() && #[trigger] cells@[i].x == cx
                                        && cells@[i].y == cy;
                                assert(cells0[i] == cells@[i]);
                            }
                        }
                    }
                    dx = dx + 1;
                }
                assert forall|ddx: int, ddy: int|
                    0 <= ddx < w && 0 <= ddy < dy + 1 implies #[trigger] is_claimed_at(cells@, x + ddx, y + ddy) by {
                    if ddy == dy {
                        assert(is_claimed_at(cells@, x + ddx, y + dy));
                    }
                }
                dy = dy + 1;
            }
            assert forall|r0: int, j: int|
                (0 <= r0 < y && 0 <= j < rows@[r0]@.len()) || (r0 == y && 0 <= j < k) implies #[trigger] source_covered(
                rows@,
                cells@,
                r0,
                j,
            ) by {
                assert(source_covered(rows@, cells0, r0, j));
                let i = choose|i: int|
                    0 <= i < cells0.len() && #[trigger] claimed_from(rows@, cells0[i], r0, j)
                        && cells0[i].y == r0 && rect_claimed(
                        cells0,
                        cells0[i].x as int,
                        r0,
                        span_value(rows@[r0]@[j].colspan),
                        span_value(rows@[r0]@[j].rowspan),
                    );
                assert(cells@[i] == cells0[i]);
                lemma_claims_persist(cells0, cells@);
                assert forall|dx: int, dy: int|
                    0 <= dx < span_value(rows@[r0]@[j].colspan) && 0 <= dy < span_value(rows@[r0]@[j].rowspan) implies #[trigger] is_claimed_at(cells@, cells@[i].x + dx, r0 + dy) by {
                    assert(is_claimed_at(cells0, cells0[i].x + dx, r0 + dy));
                }
            }
            assert(cells@[origin].x == x);
            assert(rect_claimed(cells@, x as int, y as int, w as int, h as int));
            assert(source_covered(rows@, cells@, y as int, k as int));
            x = x + w;
            bound = bound + w;
            k = k + 1;
        }
        y = y + 1;
    }
    Ok(Table { title, cells })
}

} // verus!
