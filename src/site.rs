//! The second dictionary's tables: every span coordinate is placed on its
//! own, moved right past coordinates already claimed; the page's part of
//! speech and the table's title become header rows on top; each data cell
//! is read with every header in its row or column.
use vstd::prelude::*;
use crate::grammar::{Case, Declension, Dimension, Gender, Mood, Noun, Number, PartOfSpeech, Person, Tense, Theme, Voice};
use crate::lexicon::{is_finite, NounInflectionGenders, VerbInflectionTenses, WordInflection};
use crate::site_tree::{set_genders, set_tenses, site_genders_set, site_tenses_set};
use crate::fixes::{remove_all, remove_all_exec};
use crate::morph::{contains_exec, contains_text, pieces_from, split_pieces, lower_of, to_lowercase, trim, trimmed_of};
use crate::paradigm::BuildError;
use crate::text::{chars_of, string_of};
use crate::grid::{
    extent, extent_of, first_free, lemma_extent_grows, lemma_row_sums, row_depth, row_width,
    widths_before, check_spans, claimed_from, has_source, is_claimed, is_claimed_at, parse_span, source_placed,
    span_valid, span_value, spans_valid, GridError, RawCell, TableCell, TableCellType,
};

verus! {

/// No two placed coordinates coincide.
pub open spec fn site_cells_unique(cells: Seq<TableCell>) -> bool {
    forall|i: int, j: int|
        0 <= i < j < cells.len() ==> !(#[trigger] cells[i].x == #[trigger] cells[j].x && cells[i].y
            == cells[j].y)
}

/// Every placed coordinate comes from a source cell whose row span covers
/// its row, and every source cell places a coordinate in its own row.
pub open spec fn site_layout(rows: Seq<Vec<RawCell>>, cells: Seq<TableCell>) -> bool {
    &&& forall|i: int| 0 <= i < cells.len() ==> has_source(rows, #[trigger] cells[i])
    &&& forall|r0: int, k: int|
        0 <= r0 < rows.len() && 0 <= k < rows[r0]@.len() ==> #[trigger] source_placed(rows, cells, r0, k)
}

/// The span areas of the first `k` cells of a row, summed.
pub open spec fn row_area(row: Seq<RawCell>, k: int) -> int
    decreases k,
{
    if k <= 0 {
        0
    } else {
        row_area(row, k - 1) + span_value(row[k - 1].colspan) * span_value(row[k - 1].rowspan)
    }
}

/// The span areas of the first `n` rows, summed: how many coordinates they place.
pub open spec fn area_before(rows: Seq<Vec<RawCell>>, n: int) -> int
    decreases n,
{
    if n <= 0 {
        0
    } else {
        area_before(rows, n - 1) + row_area(rows[n - 1]@, rows[n - 1]@.len() as int)
    }
}

/// A bound on every coordinate the layout reaches: the grid's extent plus
/// one column for each coordinate placed.
pub open spec fn site_extent(rows: Seq<Vec<RawCell>>) -> int {
    extent(rows) + area_before(rows, rows.len() as int)
}

proof fn lemma_area_sums(row: Seq<RawCell>, k: int, n: int)
    requires
        0 <= k <= n <= row.len(),
    ensures
        0 <= row_area(row, k) <= row_area(row, n),
    decreases n,
{
    if n > 0 {
        if k < n {
            lemma_area_sums(row, k, n - 1);
        } else {
            lemma_area_sums(row, k - 1, n - 1);
        }
        let w = span_value(row[n - 1].colspan);
        let h = span_value(row[n - 1].rowspan);
        assert(w * h >= 0) by (nonlinear_arith)
            requires
                w >= 0,
                h >= 0,
        ;
    }
}

proof fn lemma_area_grows(rows: Seq<Vec<RawCell>>, m: int, n: int)
    requires
        0 <= m <= n <= rows.len(),
    ensures
        0 <= area_before(rows, m) <= area_before(rows, n),
    decreases n,
{
    if n > 0 {
        lemma_area_grows(rows, if m < n { m } else { n - 1 }, n - 1);
        lemma_area_sums(rows[n - 1]@, 0, rows[n - 1]@.len() as int);
    }
}

/// Coordinate `(dx, dy)` of source cell `k` of row `r` is cell `i`: it has
/// the source's kind and text, stands in row `r + dy`, and stands at the
/// first column, from the one the cursor gives it, that no earlier cell
/// claimed in that row.
pub open spec fn site_slot(rows: Seq<Vec<RawCell>>, cells: Seq<TableCell>, i: int, r: int, k: int, dx: int, dy: int) -> bool {
    let from = row_width(rows[r]@, k) + dx;
    &&& 0 <= i < cells.len()
    &&& cells[i].cell_type == rows[r]@[k].cell_type
    &&& cells[i].content@ == rows[r]@[k].content@
    &&& cells[i].y == r + dy
    &&& from <= cells[i].x
    &&& forall|c: int| from <= c < cells[i].x ==> #[trigger] is_claimed_at(cells.subrange(0, i), c, r + dy)
}

/// Coordinate `(dx, dy)` of source cell `k` of row `r` is some placed cell.
pub open spec fn slot_filled(rows: Seq<Vec<RawCell>>, cells: Seq<TableCell>, r: int, k: int, dx: int, dy: int) -> bool {
    exists|i: int| #[trigger] site_slot(rows, cells, i, r, k, dx, dy)
}

/// Every coordinate of the span of source cell `k` of row `r` is placed.
pub open spec fn site_span_placed(rows: Seq<Vec<RawCell>>, cells: Seq<TableCell>, r: int, k: int) -> bool {
    forall|dx: int, dy: int|
        0 <= dx < span_value(rows[r]@[k].colspan) && 0 <= dy < span_value(rows[r]@[k].rowspan)
            ==> #[trigger] slot_filled(rows, cells, r, k, dx, dy)
}

proof fn lemma_slot_persists(rows: Seq<Vec<RawCell>>, old: Seq<TableCell>, new: Seq<TableCell>, i: int, r: int, k: int, dx: int, dy: int)
    requires
        old.len() <= new.len(),
        forall|j: int| 0 <= j < old.len() ==> new[j] == old[j],
        site_slot(rows, old, i, r, k, dx, dy),
    ensures
        site_slot(rows, new, i, r, k, dx, dy),
{
    assert(new.subrange(0, i) =~= old.subrange(0, i));
}

/// Whether the layout's coordinates all fit in `usize`.
fn site_extent_fits(rows: &Vec<Vec<RawCell>>) -> (r: bool)
    requires
        spans_valid(rows@),
    ensures
        r == (site_extent(rows@) <= usize::MAX),
{
    let mut total: u128 = 0;
    let mut y: usize = 0;
    while y < rows.len()
        invariant
            0 <= y <= rows.len(),
            spans_valid(rows@),
            total == extent_of(rows@, y as int) + area_before(rows@, y as int),
            total <= usize::MAX,
        decreases rows.len() - y,
    {
        let row = &rows[y];
        proof {
            lemma_extent_grows(rows@, y as int + 1, rows@.len() as int);
            lemma_area_grows(rows@, y as int + 1, rows@.len() as int);
            lemma_row_sums(row@, 0, row@.len() as int);
            lemma_area_sums(row@, 0, row@.len() as int);
        }
        total = total + 1;
        if total > usize::MAX as u128 {
            return false;
        }
        let mut k: usize = 0;
        while k < row.len()
            invariant
                0 <= y < rows.len(),
                row == rows@[y as int],
                0 <= k <= row.len(),
                spans_valid(rows@),
                total == extent_of(rows@, y as int) + 1 + row_width(row@, k as int) + row_depth(row@, k as int) + area_before(rows@, y as int) + row_area(row@, k as int),
                total <= usize::MAX,
                extent_of(rows@, y + 1) + area_before(rows@, y + 1) <= site_extent(rows@),
            decreases row.len() - k,
        {
            proof {
                lemma_row_sums(row@, k + 1, row@.len() as int);
                lemma_area_sums(row@, k + 1, row@.len() as int);
            }
            assert(span_valid(rows@[y as int]@[k as int].rowspan));
            let h = parse_span(&row[k].rowspan).unwrap();
            let w = parse_span(&row[k].colspan).unwrap();
            assert((w as int) * (h as int) <= 0xffff_ffff_ffff_ffff * 0xffff_ffff_ffff_ffff) by (nonlinear_arith)
                requires
                    w <= 0xffff_ffff_ffff_ffff,
                    h <= 0xffff_ffff_ffff_ffff,
            ;
            assert((w as int) * (h as int) >= 0) by (nonlinear_arith)
                requires
                    w >= 0,
                    h >= 0,
            ;
            total = total + (w as u128);
            if total > usize::MAX as u128 {
                return false;
            }
            total = total + (h as u128);
            if total > usize::MAX as u128 {
                return false;
            }
            let prod = (w as u128) * (h as u128);
            if prod > usize::MAX as u128 - total {
                return false;
            }
            total = total + prod;
            k = k + 1;
        }
        y = y + 1;
    }
    true
}

/// Places every coordinate of every cell's span: row by row, a cursor
/// moves past each cell's column span, and each coordinate of the span is
/// moved right, on its own, to the first column no earlier coordinate
/// claimed. The layout is too large exactly when a coordinate could pass
/// `usize`.
pub fn place_site_rows(rows: &Vec<Vec<RawCell>>) -> (r: Result<Vec<TableCell>, GridError>)
    ensures
        r matches Err(GridError::Format) <==> !spans_valid(rows@),
        r matches Err(GridError::TooLarge) <==> spans_valid(rows@) && site_extent(rows@) > usize::MAX,
        r is Ok ==> {
            &&& site_cells_unique(r->Ok_0@)
            &&& site_layout(rows@, r->Ok_0@)
            &&& r->Ok_0@.len() == area_before(rows@, rows@.len() as int)
            &&& forall|r0: int, k: int|
                0 <= r0 < rows@.len() && 0 <= k < rows@[r0]@.len() ==> #[trigger] site_span_placed(rows@, r->Ok_0@, r0, k)
        },
{
    if !check_spans(rows) {
        return Err(GridError::Format);
    }
    if !site_extent_fits(rows) {
        return Err(GridError::TooLarge);
    }
    proof {
        lemma_extent_grows(rows@, rows@.len() as int, rows@.len() as int);
        lemma_area_grows(rows@, rows@.len() as int, rows@.len() as int);
    }
    let ghost total_w = widths_before(rows@, rows@.len() as int);
    let ghost total_a = area_before(rows@, rows@.len() as int);
    let mut cells: Vec<TableCell> = Vec::new();
    let mut bound: usize = 0;
    let mut y: usize = 0;
    while y < rows.len()
        invariant
            0 <= y <= rows.len(),
            spans_valid(rows@),
            site_extent(rows@) <= usize::MAX,
            total_w == widths_before(rows@, rows@.len() as int),
            total_a == area_before(rows@, rows@.len() as int),
            total_w + rows@.len() <= extent(rows@),
            cells@.len() == area_before(rows@, y as int),
            bound <= total_w + cells@.len(),
            forall|i: int| 0 <= i < cells@.len() ==> (#[trigger] cells@[i]).x < bound,
            site_cells_unique(cells@),
            forall|i: int| 0 <= i < cells@.len() ==> has_source(rows@, #[trigger] cells@[i]),
            forall|r0: int, k: int|
                0 <= r0 < y && 0 <= k < rows@[r0]@.len() ==> #[trigger] source_placed(rows@, cells@, r0, k),
            forall|r0: int, k: int|
                0 <= r0 < y && 0 <= k < rows@[r0]@.len() ==> #[trigger] site_span_placed(rows@, cells@, r0, k),
        decreases rows.len() - y,
    {
        let row = &rows[y];
        proof {
            lemma_extent_grows(rows@, y as int + 1, rows@.len() as int);
            lemma_extent_grows(rows@, y as int, y as int + 1);
            lemma_extent_grows(rows@, y as int, y as int);
            lemma_area_grows(rows@, y as int + 1, rows@.len() as int);
            lemma_row_sums(row@, 0, row@.len() as int);
        }
        let mut cell_x: usize = 0;
        let mut k: usize = 0;
        while k < row.len()
            invariant
                0 <= y < rows.len(),
                row == rows@[y as int],
                0 <= k <= row.len(),
                spans_valid(rows@),
                site_extent(rows@) <= usize::MAX,
                total_w == widths_before(rows@, rows@.len() as int),
                total_a == area_before(rows@, rows@.len() as int),
                total_w + rows@.len() <= extent(rows@),
                widths_before(rows@, y + 1) <= total_w,
                area_before(rows@, y + 1) <= total_a,
                extent_of(rows@, y + 1) <= extent(rows@),
                extent_of(rows@, y as int) >= y,
                cell_x == row_width(row@, k as int),
                cells@.len() == area_before(rows@, y as int) + row_area(row@, k as int),
                bound <= total_w + cells@.len(),
                forall|i: int| 0 <= i < cells@.len() ==> (#[trigger] cells@[i]).x < bound,
                site_cells_unique(cells@),
                forall|i: int| 0 <= i < cells@.len() ==> has_source(rows@, #[trigger] cells@[i]),
                forall|r0: int, k: int|
                    0 <= r0 < y && 0 <= k < rows@[r0]@.len() ==> #[trigger] source_placed(rows@, cells@, r0, k),
                forall|r0: int, k: int|
                    0 <= r0 < y && 0 <= k < rows@[r0]@.len() ==> #[trigger] site_span_placed(rows@, cells@, r0, k),
                forall|j: int| 0 <= j < k ==> #[trigger] source_placed(rows@, cells@, y as int, j),
                forall|j: int| 0 <= j < k ==> #[trigger] site_span_placed(rows@, cells@, y as int, j),
            decreases row.len() - k,
        {
            let cell = &row[k];
            assert(span_valid(rows@[y as int]@[k as int].rowspan));
            let h = parse_span(&cell.rowspan).unwrap();
            let w = parse_span(&cell.colspan).unwrap();
            proof {
                lemma_row_sums(row@, k + 1, row@.len() as int);
                lemma_row_sums(row@, k as int, row@.len() as int);
                lemma_area_sums(row@, k + 1, row@.len() as int);
                lemma_extent_grows(rows@, y as int + 1, y as int + 1);
                lemma_extent_grows(rows@, y as int, y as int);
                lemma_area_grows(rows@, y as int, y as int);
            }
            let ghost base = cells@.len() as int;
            assert(row_width(row@, k + 1) <= row_width(row@, row@.len() as int));
            assert(widths_before(rows@, y + 1) == widths_before(rows@, y as int) + row_width(rows@[y as int]@, rows@[y as int]@.len() as int));
            assert(row_area(row@, k + 1) <= row_area(row@, row@.len() as int));
            assert(area_before(rows@, y + 1) == area_before(rows@, y as int) + row_area(rows@[y as int]@, rows@[y as int]@.len() as int));
            assert(cell_x + w <= total_w);
            assert(y + h <= usize::MAX);
            let ghost cells0 = cells@;
            let ghost origin = cells@.len() as int;
            let mut dy: usize = 0;
            while dy < h
                invariant
                    0 <= dy <= h,
                    0 <= y < rows.len(),
                    row == rows@[y as int],
                    0 <= k < row.len(),
                    cell == row@[k as int],
                    h == span_value(cell.rowspan),
                    w == span_value(cell.colspan),
                    w >= 1,
                    cell_x == row_width(row@, k as int),
                    cell_x + w <= total_w,
                    y + h <= usize::MAX,
                    base + w * h <= total_a,
                    total_w + total_a <= usize::MAX,
                    cells@.len() == base + dy * w,
                    bound <= total_w + cells@.len(),
                    forall|i: int| 0 <= i < cells@.len() ==> (#[trigger] cells@[i]).x < bound,
                    site_cells_unique(cells@),
                    forall|i: int| 0 <= i < cells@.len() ==> has_source(rows@, #[trigger] cells@[i]),
                    spans_valid(rows@),
                    cells0.len() == origin,
                    origin == base,
                    0 <= origin <= cells@.len(),
                    forall|i: int| 0 <= i < origin ==> cells@[i] == cells0[i],
                    dy > 0 ==> origin < cells@.len() && claimed_from(rows@, cells@[origin], y as int, k as int) && cells@[origin].y == y,
                    forall|ddx: int, ddy: int|
                        0 <= ddx < w && 0 <= ddy < dy ==> #[trigger] slot_filled(rows@, cells@, y as int, k as int, ddx, ddy),
                decreases h - dy,
            {
                let mut dx: usize = 0;
                while dx < w
                    invariant
                        0 <= dx <= w,
                        0 <= dy < h,
                        0 <= y < rows.len(),
                        row == rows@[y as int],
                        0 <= k < row.len(),
                        cell == row@[k as int],
                        h == span_value(cell.rowspan),
                        w == span_value(cell.colspan),
                        w >= 1,
                        cell_x == row_width(row@, k as int),
                        cell_x + w <= total_w,
                        y + h <= usize::MAX,
                        base + w * h <= total_a,
                        total_w + total_a <= usize::MAX,
                        cells@.len() == base + dy * w + dx,
                        bound <= total_w + cells@.len(),
                        forall|i: int| 0 <= i < cells@.len() ==> (#[trigger] cells@[i]).x < bound,
                        site_cells_unique(cells@),
                        forall|i: int| 0 <= i < cells@.len() ==> has_source(rows@, #[trigger] cells@[i]),
                        spans_valid(rows@),
                        cells0.len() == origin,
                        origin == base,
                        0 <= origin <= cells@.len(),
                        forall|i: int| 0 <= i < origin ==> cells@[i] == cells0[i],
                        (dy > 0 || dx > 0) ==> origin < cells@.len() && claimed_from(rows@, cells@[origin], y as int, k as int) && cells@[origin].y == y,
                        forall|ddx: int, ddy: int|
                            0 <= ddx < w && 0 <= ddy < dy ==> #[trigger] slot_filled(rows@, cells@, y as int, k as int, ddx, ddy),
                        forall|ddx: int|
                            0 <= ddx < dx ==> #[trigger] slot_filled(rows@, cells@, y as int, k as int, ddx, dy as int),
                    decreases w - dx,
                {
                    let cy = y + dy;
                    let from = cell_x + dx;
                    assert(dy * w + dx + 1 <= w * h) by (nonlinear_arith)
                        requires
                            dy < h,
                            dx < w,
                    ;
                    let limit = if from > bound {
                        from
                    } else {
                        bound
                    };
                    let x = first_free(&cells, from, cy, limit);
                    assert(x + 1 <= usize::MAX);
                    let c = TableCell {
                        cell_type: cell.cell_type,
                        content: cell.content.clone(),
                        x,
                        y: cy,
                    };
                    assert(claimed_from(rows@, c, y as int, k as int));
                    let ghost before = cells@;
                    let ghost at = before.len() as int;
                    cells.push(c);
                    if x + 1 > bound {
                        bound = x + 1;
                    }
                    proof {
                        assert(forall|i: int| 0 <= i < before.len() ==> cells@[i] == before[i]);
                        assert(cells@.subrange(0, at) =~= before);
                        assert(site_slot(rows@, cells@, at, y as int, k as int, dx as int, dy as int));
                        assert(slot_filled(rows@, cells@, y as int, k as int, dx as int, dy as int));
                        assert forall|i: int, j: int|
                            0 <= i < j < cells@.len() implies !(#[trigger] cells@[i].x == #[trigger] cells@[j].x && cells@[i].y == cells@[j].y) by {
                            if j == at && cells@[i].x == x && cells@[i].y == cy {
                                assert(before[i].x == x && before[i].y == cy);
                                assert(is_claimed_at(before, x as int, cy as int));
                            }
                        }
                        assert forall|ddx: int, ddy: int|
                            0 <= ddx < w && 0 <= ddy < dy implies #[trigger] slot_filled(rows@, cells@, y as int, k as int, ddx, ddy) by {
                            assert(slot_filled(rows@, before, y as int, k as int, ddx, ddy));
                            let i = choose|i: int| site_slot(rows@, before, i, y as int, k as int, ddx, ddy);
                            lemma_slot_persists(rows@, before, cells@, i, y as int, k as int, ddx, ddy);
                        }
                        assert forall|ddx: int|
                            0 <= ddx < dx + 1 implies #[trigger] slot_filled(rows@, cells@, y as int, k as int, ddx, dy as int) by {
                            if ddx < dx {
                                assert(slot_filled(rows@, before, y as int, k as int, ddx, dy as int));
                                let i = choose|i: int| site_slot(rows@, before, i, y as int, k as int, ddx, dy as int);
                                lemma_slot_persists(rows@, before, cells@, i, y as int, k as int, ddx, dy as int);
                            }
                        }
                    }
                    dx = dx + 1;
                }
                assert(base + dy * w + w == base + (dy + 1) * w) by (nonlinear_arith);
                dy = dy + 1;
            }
            assert(h * w == w * h) by (nonlinear_arith);
            assert forall|r0: int, j: int|
                (0 <= r0 < y && 0 <= j < rows@[r0]@.len()) || (r0 == y && 0 <= j < k) implies #[trigger] source_placed(
                rows@,
                cells@,
                r0,
                j,
            ) by {
                assert(source_placed(rows@, cells0, r0, j));
                let i = choose|i: int|
                    0 <= i < cells0.len() && #[trigger] claimed_from(rows@, cells0[i], r0, j)
                        && cells0[i].y == r0;
                assert(cells@[i] == cells0[i]);
            }
            assert forall|r0: int, j: int|
                (0 <= r0 < y && 0 <= j < rows@[r0]@.len()) || (r0 == y && 0 <= j < k) implies #[trigger] site_span_placed(
                rows@,
                cells@,
                r0,
                j,
            ) by {
                assert(site_span_placed(rows@, cells0, r0, j));
                assert forall|dx: int, dy: int|
                    0 <= dx < span_value(rows@[r0]@[j].colspan) && 0 <= dy < span_value(rows@[r0]@[j].rowspan)
                        implies #[trigger] slot_filled(rows@, cells@, r0, j, dx, dy) by {
                    assert(slot_filled(rows@, cells0, r0, j, dx, dy));
                    let i = choose|i: int| site_slot(rows@, cells0, i, r0, j, dx, dy);
                    lemma_slot_persists(rows@, cells0, cells@, i, r0, j, dx, dy);
                }
            }
            assert(source_placed(rows@, cells@, y as int, k as int));
            assert(site_span_placed(rows@, cells@, y as int, k as int));
            cell_x = cell_x + w;
            k = k + 1;
        }
        y = y + 1;
    }
    Ok(cells)
}

/// The largest column among the cells, plus one; one for no cells.
pub open spec fn header_width(cells: Seq<TableCell>) -> int
    decreases cells.len(),
{
    if cells.len() == 0 {
        1
    } else {
        let rest = header_width(cells.drop_last());
        if cells.last().x + 1 > rest {
            cells.last().x + 1
        } else {
            rest
        }
    }
}

proof fn lemma_header_width(cells: Seq<TableCell>)
    ensures
        header_width(cells) >= 1,
        forall|i: int| 0 <= i < cells.len() ==> (#[trigger] cells[i]).x < header_width(cells),
    decreases cells.len(),
{
    if cells.len() > 0 {
        lemma_header_width(cells.drop_last());
        assert forall|i: int| 0 <= i < cells.len() implies (#[trigger] cells[i]).x < header_width(cells) by {
            if i < cells.len() - 1 {
                assert(cells.drop_last()[i] == cells[i]);
            }
        }
    }
}

/// Moves every cell down one row and lays a header row of `header` over
/// the full width on top.
pub fn cells_insert_header(cells: &mut Vec<TableCell>, header: &str)
    requires
        forall|i: int| 0 <= i < old(cells)@.len() ==> (#[trigger] old(cells)@[i]).y < usize::MAX && old(cells)@[i].x < usize::MAX,
    ensures
        final(cells)@.len() == old(cells)@.len() + header_width(old(cells)@),
        forall|i: int|
            0 <= i < old(cells)@.len() ==> {
                &&& (#[trigger] final(cells)@[i]).y == old(cells)@[i].y + 1
                &&& final(cells)@[i].x == old(cells)@[i].x
                &&& final(cells)@[i].cell_type == old(cells)@[i].cell_type
                &&& final(cells)@[i].content == old(cells)@[i].content
            },
        forall|j: int|
            0 <= j < header_width(old(cells)@) ==> {
                &&& (#[trigger] final(cells)@[old(cells)@.len() + j]).x == j
                &&& final(cells)@[old(cells)@.len() + j].y == 0
                &&& final(cells)@[old(cells)@.len() + j].cell_type == TableCellType::Header
                &&& final(cells)@[old(cells)@.len() + j].content@ == header@
            },
{
    let ghost o = cells@;
    let n = cells.len();
    let mut moved: Vec<TableCell> = Vec::new();
    let mut width: usize = 1;
    let mut i: usize = 0;
    while i < n
        invariant
            0 <= i <= n,
            n == o.len(),
            cells@ == o,
            forall|k: int| 0 <= k < o.len() ==> (#[trigger] o[k]).y < usize::MAX && o[k].x < usize::MAX,
            moved@.len() == i,
            width == header_width(o.subrange(0, i as int)),
            forall|k: int|
                0 <= k < i ==> {
                    &&& (#[trigger] moved@[k]).y == o[k].y + 1
                    &&& moved@[k].x == o[k].x
                    &&& moved@[k].cell_type == o[k].cell_type
                    &&& moved@[k].content == o[k].content
                },
        decreases n - i,
    {
        let c = &cells[i];
        assert(o.subrange(0, i + 1).drop_last() =~= o.subrange(0, i as int));
        if c.x + 1 > width {
            width = c.x + 1;
        }
        moved.push(TableCell { cell_type: c.cell_type, content: c.content.clone(), x: c.x, y: c.y + 1 });
        i = i + 1;
    }
    assert(o.subrange(0, n as int) =~= o);
    let mut j: usize = 0;
    while j < width
        invariant
            0 <= j <= width,
            width == header_width(o),
            moved@.len() == o.len() + j,
            forall|k: int|
                0 <= k < o.len() ==> {
                    &&& (#[trigger] moved@[k]).y == o[k].y + 1
                    &&& moved@[k].x == o[k].x
                    &&& moved@[k].cell_type == o[k].cell_type
                    &&& moved@[k].content == o[k].content
                },
            forall|m: int|
                0 <= m < j ==> {
                    &&& (#[trigger] moved@[o.len() + m]).x == m
                    &&& moved@[o.len() + m].y == 0
                    &&& moved@[o.len() + m].cell_type == TableCellType::Header
                    &&& moved@[o.len() + m].content@ == header@
                },
        decreases width - j,
    {
        moved.push(TableCell { cell_type: TableCellType::Header, content: header.to_owned(), x: j, y: 0 });
        j = j + 1;
    }
    *cells = moved;
}

pub open spec fn strings_view(v: Seq<String>) -> Seq<Seq<char>> {
    v.map_values(|s: String| s@)
}

pub open spec fn has_header(h: Seq<Seq<char>>, w: Seq<char>) -> bool {
    h.contains(w)
}

fn has_header_exec(h: &Vec<String>, w: &str) -> (r: bool)
    ensures
        r == has_header(strings_view(h@), w@),
{
    let target = w.to_owned();
    let mut i: usize = 0;
    while i < h.len()
        invariant
            0 <= i <= h.len(),
            target@ == w@,
            forall|k: int| 0 <= k < i ==> h@[k]@ != w@,
        decreases h.len() - i,
    {
        if h[i] == target {
            assert(strings_view(h@)[i as int] == w@);
            return true;
        }
        i = i + 1;
    }
    assert(!strings_view(h@).contains(w@)) by {
        if strings_view(h@).contains(w@) {
            let k = choose|k: int| 0 <= k < strings_view(h@).len() && strings_view(h@)[k] == w@;
            assert(h@[k]@ == w@);
        }
    }
    false
}

/// Whether a row gives the spelling (`true`) or the morphemes (`false`).
pub open spec fn site_contraction(h: Seq<Seq<char>>) -> Option<bool> {
    if has_header(h, "contracted"@) || has_header(h, "inflection"@) {
        Some(true)
    } else if has_header(h, "uncontracted"@) {
        Some(false)
    } else {
        None
    }
}

pub open spec fn site_gender(h: Seq<Seq<char>>) -> Option<Gender> {
    if has_header(h, "feminine"@) {
        Some(Gender::Feminine)
    } else if has_header(h, "masculine"@) {
        Some(Gender::Masculine)
    } else if has_header(h, "neuter"@) {
        Some(Gender::Neuter)
    } else {
        None
    }
}

pub open spec fn site_number(h: Seq<Seq<char>>) -> Option<Number> {
    if has_header(h, "sg"@) {
        Some(Number::Singular)
    } else if has_header(h, "pl"@) {
        Some(Number::Plural)
    } else {
        None
    }
}

pub open spec fn site_case(h: Seq<Seq<char>>) -> Option<Case> {
    if has_header(h, "gen"@) {
        Some(Case::Genitive)
    } else if has_header(h, "nom"@) {
        Some(Case::Nominative)
    } else if has_header(h, "dat"@) {
        Some(Case::Dative)
    } else if has_header(h, "acc"@) {
        Some(Case::Accusative)
    } else if has_header(h, "voc"@) {
        Some(Case::Vocative)
    } else {
        None
    }
}

pub open spec fn site_tense(h: Seq<Seq<char>>) -> Option<Tense> {
    if has_header(h, "present"@) {
        Some(Tense::Present)
    } else if has_header(h, "imperfect"@) {
        Some(Tense::Imperfect)
    } else if has_header(h, "future"@) {
        Some(Tense::Future)
    } else if has_header(h, "aorist"@) {
        Some(Tense::Aorist)
    } else if has_header(h, "perfect"@) {
        Some(Tense::Perfect)
    } else if has_header(h, "pluperfect"@) {
        Some(Tense::Pluperfect)
    } else {
        None
    }
}

pub open spec fn site_mood(h: Seq<Seq<char>>) -> Option<Mood> {
    if has_header(h, "indicative"@) {
        Some(Mood::Indicative)
    } else if has_header(h, "subjunctive"@) {
        Some(Mood::Subjunctive)
    } else if has_header(h, "optative"@) {
        Some(Mood::Optative)
    } else if has_header(h, "imperative"@) {
        Some(Mood::Imperative)
    } else if has_header(h, "infinitive"@) {
        Some(Mood::Infinitive)
    } else if has_header(h, "participle"@) {
        Some(Mood::Participle)
    } else {
        None
    }
}

pub open spec fn site_voice(h: Seq<Seq<char>>) -> Option<Voice> {
    if has_header(h, "act"@) {
        Some(Voice::Active)
    } else if has_header(h, "m/p"@) {
        Some(Voice::Middle)
    } else if has_header(h, "pass"@) {
        Some(Voice::Passive)
    } else {
        None
    }
}

pub open spec fn site_person(h: Seq<Seq<char>>) -> Option<Person> {
    if has_header(h, "1st"@) {
        Some(Person::First)
    } else if has_header(h, "2nd"@) {
        Some(Person::Second)
    } else if has_header(h, "3rd"@) {
        Some(Person::Third)
    } else {
        None
    }
}

/// The first of gender, number, case and contraction a noun row lacks.
pub open spec fn site_noun_error(h: Seq<Seq<char>>) -> Option<Dimension> {
    if site_gender(h) is None {
        Some(Dimension::Gender)
    } else if site_number(h) is None {
        Some(Dimension::Number)
    } else if site_case(h) is None {
        Some(Dimension::Case)
    } else if site_contraction(h) is None {
        Some(Dimension::Contraction)
    } else {
        None
    }
}

/// The path a verb row names: its tense, its theme (athematic where it
/// says so, thematic otherwise), its mood and voice, and below them the
/// number and person, or for a participle the gender, number and case.
pub open spec fn site_verb_path(h: Seq<Seq<char>>) -> Declension {
    Declension {
        part_of_speech: PartOfSpeech::Verb,
        mood: site_mood(h),
        person: site_person(h),
        number: site_number(h),
        gender: site_gender(h),
        case: site_case(h),
        voice: site_voice(h),
        tense: site_tense(h),
        theme: Some(if has_header(h, "athematic"@) { Theme::Athematic } else { Theme::Thematic }),
        contraction: None,
        decl_type: None,
    }
}

/// The first dimension a verb row lacks, in the order of its path; the
/// contraction last.
pub open spec fn site_verb_error(h: Seq<Seq<char>>) -> Option<Dimension> {
    if site_tense(h) is None {
        Some(Dimension::Tense)
    } else if site_mood(h) is None {
        Some(Dimension::Mood)
    } else if site_voice(h) is None {
        Some(Dimension::Voice)
    } else if is_finite(site_mood(h)->0) && site_number(h) is None {
        Some(Dimension::Number)
    } else if is_finite(site_mood(h)->0) && site_person(h) is None {
        Some(Dimension::Person)
    } else if site_mood(h) == Some(Mood::Participle) && site_gender(h) is None {
        Some(Dimension::Gender)
    } else if site_mood(h) == Some(Mood::Participle) && site_number(h) is None {
        Some(Dimension::Number)
    } else if site_mood(h) == Some(Mood::Participle) && site_case(h) is None {
        Some(Dimension::Case)
    } else if site_contraction(h) is None {
        Some(Dimension::Contraction)
    } else {
        None
    }
}

fn site_contraction_exec(h: &Vec<String>) -> (r: Option<bool>)
    ensures
        r == site_contraction(strings_view(h@)),
{
    if has_header_exec(h, "contracted") || has_header_exec(h, "inflection") {
        Some(true)
    } else if has_header_exec(h, "uncontracted") {
        Some(false)
    } else {
        None
    }
}

fn site_gender_exec(h: &Vec<String>) -> (r: Option<Gender>)
    ensures
        r == site_gender(strings_view(h@)),
{
    if has_header_exec(h, "feminine") {
        Some(Gender::Feminine)
    } else if has_header_exec(h, "masculine") {
        Some(Gender::Masculine)
    } else if has_header_exec(h, "neuter") {
        Some(Gender::Neuter)
    } else {
        None
    }
}

fn site_number_exec(h: &Vec<String>) -> (r: Option<Number>)
    ensures
        r == site_number(strings_view(h@)),
{
    if has_header_exec(h, "sg") {
        Some(Number::Singular)
    } else if has_header_exec(h, "pl") {
        Some(Number::Plural)
    } else {
        None
    }
}

fn site_case_exec(h: &Vec<String>) -> (r: Option<Case>)
    ensures
        r == site_case(strings_view(h@)),
{
    if has_header_exec(h, "gen") {
        Some(Case::Genitive)
    } else if has_header_exec(h, "nom") {
        Some(Case::Nominative)
    } else if has_header_exec(h, "dat") {
        Some(Case::Dative)
    } else if has_header_exec(h, "acc") {
        Some(Case::Accusative)
    } else if has_header_exec(h, "voc") {
        Some(Case::Vocative)
    } else {
        None
    }
}

fn site_tense_exec(h: &Vec<String>) -> (r: Option<Tense>)
    ensures
        r == site_tense(strings_view(h@)),
{
    if has_header_exec(h, "present") {
        Some(Tense::Present)
    } else if has_header_exec(h, "imperfect") {
        Some(Tense::Imperfect)
    } else if has_header_exec(h, "future") {
        Some(Tense::Future)
    } else if has_header_exec(h, "aorist") {
        Some(Tense::Aorist)
    } else if has_header_exec(h, "perfect") {
        Some(Tense::Perfect)
    } else if has_header_exec(h, "pluperfect") {
        Some(Tense::Pluperfect)
    } else {
        None
    }
}

fn site_mood_exec(h: &Vec<String>) -> (r: Option<Mood>)
    ensures
        r == site_mood(strings_view(h@)),
{
    if has_header_exec(h, "indicative") {
        Some(Mood::Indicative)
    } else if has_header_exec(h, "subjunctive") {
        Some(Mood::Subjunctive)
    } else if has_header_exec(h, "optative") {
        Some(Mood::Optative)
    } else if has_header_exec(h, "imperative") {
        Some(Mood::Imperative)
    } else if has_header_exec(h, "infinitive") {
        Some(Mood::Infinitive)
    } else if has_header_exec(h, "participle") {
        Some(Mood::Participle)
    } else {
        None
    }
}

fn site_voice_exec(h: &Vec<String>) -> (r: Option<Voice>)
    ensures
        r == site_voice(strings_view(h@)),
{
    if has_header_exec(h, "act") {
        Some(Voice::Active)
    } else if has_header_exec(h, "m/p") {
        Some(Voice::Middle)
    } else if has_header_exec(h, "pass") {
        Some(Voice::Passive)
    } else {
        None
    }
}

fn site_person_exec(h: &Vec<String>) -> (r: Option<Person>)
    ensures
        r == site_person(strings_view(h@)),
{
    if has_header_exec(h, "1st") {
        Some(Person::First)
    } else if has_header_exec(h, "2nd") {
        Some(Person::Second)
    } else if has_header_exec(h, "3rd") {
        Some(Person::Third)
    } else {
        None
    }
}

/// Files `word` in a noun tree at the gender, number and case that the
/// headers `parsing` name, as its spelling under a "contracted" or
/// "inflection" header, as its morphemes (split at '.' and '·') under an
/// "uncontracted" one. A row that lacks one of these is an error, and the
/// tree is left as it was.
pub fn extract_noun_inflection(noun: &mut NounInflectionGenders, parsing: &Vec<String>, word: &str) -> (r: Result<(), BuildError>)
    ensures
        ({
            let h = strings_view(parsing@);
            &&& r is Err <==> site_noun_error(h) is Some
            &&& r is Err ==> *final(noun) == *old(noun) && r->Err_0 == BuildError::MissingDimension(site_noun_error(h)->0)
            &&& r is Ok ==> site_genders_set(*old(noun), *final(noun), site_gender(h)->0, site_number(h)->0, site_case(h)->0, site_contraction(h)->0, word@)
        }),
{
    let g = match site_gender_exec(parsing) {
        Some(g) => g,
        None => {
            return Err(BuildError::MissingDimension(Dimension::Gender));
        },
    };
    let n = match site_number_exec(parsing) {
        Some(n) => n,
        None => {
            return Err(BuildError::MissingDimension(Dimension::Number));
        },
    };
    let c = match site_case_exec(parsing) {
        Some(c) => c,
        None => {
            return Err(BuildError::MissingDimension(Dimension::Case));
        },
    };
    let contracted = match site_contraction_exec(parsing) {
        Some(x) => x,
        None => {
            return Err(BuildError::MissingDimension(Dimension::Contraction));
        },
    };
    set_genders(noun, g, n, c, contracted, word);
    Ok(())
}

/// Files a verb row in a verb tree along the path its headers name. A
/// row that lacks a step of its path, or its contraction, is an error,
/// and the tree is left as it was.
pub fn extract_verb_inflection(verb: &mut VerbInflectionTenses, parsing: &Vec<String>, word: &str) -> (r: Result<(), BuildError>)
    ensures
        ({
            let h = strings_view(parsing@);
            &&& r is Err <==> site_verb_error(h) is Some
            &&& r is Err ==> *final(verb) == *old(verb) && r->Err_0 == BuildError::MissingDimension(site_verb_error(h)->0)
            &&& r is Ok ==> site_tenses_set(*old(verb), *final(verb), site_verb_path(h), site_contraction(h)->0, word@)
        }),
{
    let t = site_tense_exec(parsing);
    if t.is_none() {
        return Err(BuildError::MissingDimension(Dimension::Tense));
    }
    let m = site_mood_exec(parsing);
    if m.is_none() {
        return Err(BuildError::MissingDimension(Dimension::Mood));
    }
    let v = site_voice_exec(parsing);
    if v.is_none() {
        return Err(BuildError::MissingDimension(Dimension::Voice));
    }
    let mood = m.unwrap();
    let finite = mood != Mood::Infinitive && mood != Mood::Participle;
    let n = site_number_exec(parsing);
    let p = site_person_exec(parsing);
    let g = site_gender_exec(parsing);
    let c = site_case_exec(parsing);
    if finite && n.is_none() {
        return Err(BuildError::MissingDimension(Dimension::Number));
    }
    if finite && p.is_none() {
        return Err(BuildError::MissingDimension(Dimension::Person));
    }
    if mood == Mood::Participle && g.is_none() {
        return Err(BuildError::MissingDimension(Dimension::Gender));
    }
    if mood == Mood::Participle && n.is_none() {
        return Err(BuildError::MissingDimension(Dimension::Number));
    }
    if mood == Mood::Participle && c.is_none() {
        return Err(BuildError::MissingDimension(Dimension::Case));
    }
    let contracted = match site_contraction_exec(parsing) {
        Some(x) => x,
        None => {
            return Err(BuildError::MissingDimension(Dimension::Contraction));
        },
    };
    let theme = if has_header_exec(parsing, "athematic") {
        Theme::Athematic
    } else {
        Theme::Thematic
    };
    let q = Declension {
        part_of_speech: PartOfSpeech::Verb,
        mood: m,
        person: p,
        number: n,
        gender: g,
        case: c,
        voice: v,
        tense: t,
        theme: Some(theme),
        contraction: None,
        decl_type: None,
    };
    assert(q == site_verb_path(strings_view(parsing@)));
    set_tenses(verb, &q, contracted, word);
    Ok(())
}

/// The normalised headers of the first `n` cells that share a row or a
/// column with `c`.
pub open spec fn headers_of(cells: Seq<TableCell>, c: TableCell, n: int) -> Seq<Seq<char>>
    decreases n,
{
    if n <= 0 {
        Seq::empty()
    } else {
        let rest = headers_of(cells, c, n - 1);
        let h = cells[n - 1];
        if h.cell_type == TableCellType::Header && (h.y == c.y || h.x == c.x) {
            rest.push(trimmed_of(lower_of(h.content@)))
        } else {
            rest
        }
    }
}

/// The first pair from `i` on whose headers are `h`.
pub open spec fn pair_index(ps: Seq<(Seq<Seq<char>>, Seq<char>)>, h: Seq<Seq<char>>, i: int) -> Option<int>
    decreases ps.len() - i,
{
    if i < 0 || i >= ps.len() {
        None
    } else if ps[i].0 == h {
        Some(i)
    } else {
        pair_index(ps, h, i + 1)
    }
}

/// Each data cell among the first `n` with some text, as its headers and
/// its trimmed text; a later cell with the same headers replaces the text
/// of an earlier one.
pub open spec fn site_pairs(cells: Seq<TableCell>, n: int) -> Seq<(Seq<Seq<char>>, Seq<char>)>
    decreases n,
{
    if n <= 0 {
        Seq::empty()
    } else {
        let ps = site_pairs(cells, n - 1);
        let c = cells[n - 1];
        let h = headers_of(cells, c, cells.len() as int);
        let d = trimmed_of(c.content@);
        if c.cell_type != TableCellType::Data || d.len() == 0 {
            ps
        } else {
            match pair_index(ps, h, 0) {
                Some(i) => ps.update(i, (h, d)),
                None => ps.push((h, d)),
            }
        }
    }
}

/// The part of speech a pair goes to: a noun where its first header names
/// one, nothing for an indeclinable word, a verb where a header is "verb";
/// `None` where the headers name none of these.
pub open spec fn site_target(h: Seq<Seq<char>>) -> Option<Option<PartOfSpeech>> {
    if h.len() > 0 && contains_text(h[0], "noun"@) {
        Some(Some(PartOfSpeech::Noun(Noun::Common)))
    } else if h.len() > 0 && contains_text(h[0], "indeclinable"@) {
        Some(None)
    } else if h.contains("verb"@) {
        Some(Some(PartOfSpeech::Verb))
    } else {
        None
    }
}

/// The dimension whose absence sets a pair aside, if any.
pub open spec fn site_missing(h: Seq<Seq<char>>) -> Option<Dimension> {
    match site_target(h) {
        None => Some(Dimension::PartOfSpeech),
        Some(None) => None,
        Some(Some(PartOfSpeech::Verb)) => site_verb_error(h),
        Some(Some(_)) => site_noun_error(h),
    }
}

/// The error that sets a pair aside, if any.
pub open spec fn site_error(h: Seq<Seq<char>>) -> Option<BuildError> {
    match site_missing(h) {
        Some(d) => Some(BuildError::MissingDimension(d)),
        None => None,
    }
}

/// What one pair does to the paradigm: a noun row sets a form in the noun
/// tree, a verb row in the verb tree; a pair set aside or skipped changes
/// nothing.
pub open spec fn site_step(old: WordInflection, new: WordInflection, pair: (Seq<Seq<char>>, Seq<char>)) -> bool {
    let h = pair.0;
    if site_missing(h) is Some || site_target(h) == Some(None::<PartOfSpeech>) {
        new == old
    } else if site_target(h) == Some(Some(PartOfSpeech::Verb)) {
        &&& new == WordInflection { verb: new.verb, ..old }
        &&& new.verb is Some
        &&& site_tenses_set(old.verb.unwrap_or(VerbInflectionTenses::spec_empty()), new.verb->0, site_verb_path(h), site_contraction(h)->0, pair.1)
    } else {
        &&& new == WordInflection { noun: new.noun, ..old }
        &&& new.noun is Some
        &&& site_genders_set(old.noun.unwrap_or(NounInflectionGenders::spec_empty()), new.noun->0, site_gender(h)->0, site_number(h)->0, site_case(h)->0, site_contraction(h)->0, pair.1)
    }
}

/// The pairs among the first `n` that are set aside, with their errors.
pub open spec fn site_set_aside(ps: Seq<(Seq<Seq<char>>, Seq<char>)>, n: int) -> Seq<(usize, BuildError)>
    decreases n,
{
    if n <= 0 {
        Seq::empty()
    } else {
        let rest = site_set_aside(ps, n - 1);
        match site_error(ps[n - 1].0) {
            Some(e) => rest.push(((n - 1) as usize, e)),
            None => rest,
        }
    }
}

fn headers_exec(cells: &Vec<TableCell>, c: &TableCell) -> (r: Vec<String>)
    ensures
        strings_view(r@) == headers_of(cells@, *c, cells@.len() as int),
{
    let mut out: Vec<String> = Vec::new();
    let mut i: usize = 0;
    while i < cells.len()
        invariant
            0 <= i <= cells.len(),
            strings_view(out@) == headers_of(cells@, *c, i as int),
        decreases cells.len() - i,
    {
        let h = &cells[i];
        if h.cell_type == TableCellType::Header && (h.y == c.y || h.x == c.x) {
            let lower = to_lowercase(h.content.as_str());
            let t = trim(lower.as_str());
            let ghost o0 = out@;
            out.push(t);
            assert(strings_view(out@) =~= strings_view(o0).push(t@));
        }
        i = i + 1;
    }
    out
}

fn same_strings(a: &Vec<String>, b: &Vec<String>) -> (r: bool)
    ensures
        r == (strings_view(a@) == strings_view(b@)),
{
    if a.len() != b.len() {
        assert(strings_view(a@).len() != strings_view(b@).len());
        return false;
    }
    let mut i: usize = 0;
    while i < a.len()
        invariant
            a.len() == b.len(),
            0 <= i <= a.len(),
            forall|k: int| 0 <= k < i ==> a@[k]@ == b@[k]@,
        decreases a.len() - i,
    {
        if a[i] != b[i] {
            assert(strings_view(a@)[i as int] != strings_view(b@)[i as int]);
            return false;
        }
        i = i + 1;
    }
    assert(strings_view(a@) =~= strings_view(b@));
    true
}

pub open spec fn pairs_view(v: Seq<(Vec<String>, String)>) -> Seq<(Seq<Seq<char>>, Seq<char>)> {
    v.map_values(|p: (Vec<String>, String)| (strings_view(p.0@), p.1@))
}

fn site_pairs_exec(cells: &Vec<TableCell>) -> (r: Vec<(Vec<String>, String)>)
    ensures
        pairs_view(r@) == site_pairs(cells@, cells@.len() as int),
{
    let mut ps: Vec<(Vec<String>, String)> = Vec::new();
    let mut n: usize = 0;
    while n < cells.len()
        invariant
            0 <= n <= cells.len(),
            pairs_view(ps@) == site_pairs(cells@, n as int),
        decreases cells.len() - n,
    {
        let c = &cells[n];
        let d = trim(c.content.as_str());
        if c.cell_type == TableCellType::Data && d.as_str().unicode_len() > 0 {
            let h = headers_exec(cells, c);
            let ghost hv = strings_view(h@);
            let ghost pv = pairs_view(ps@);
            let mut i: usize = 0;
            let mut found = false;
            while i < ps.len()
                invariant_except_break
                    0 <= i <= ps.len(),
                    pv == pairs_view(ps@),
                    hv == strings_view(h@),
                    !found,
                    pair_index(pv, hv, 0) == pair_index(pv, hv, i as int),
                ensures
                    pv == pairs_view(ps@),
                    hv == strings_view(h@),
                    found ==> i < ps.len() && pair_index(pv, hv, 0) == Some(i as int),
                    !found ==> pair_index(pv, hv, 0) is None,
                decreases ps.len() - i,
            {
                if same_strings(&ps[i].0, &h) {
                    assert(pv[i as int].0 == hv);
                    found = true;
                    break;
                }
                i = i + 1;
            }
            assert(hv == headers_of(cells@, cells@[n as int], cells@.len() as int));
            if found {
                let ghost d0 = d@;
                ps.set(i, (h, d));
                assert(pairs_view(ps@) =~= pv.update(i as int, (hv, d0)));
            } else {
                let ghost d0 = d@;
                ps.push((h, d));
                assert(pairs_view(ps@) =~= pv.push((hv, d0)));
            }
        }
        n = n + 1;
    }
    ps
}

/// `chain` is the paradigm after each of the first `n` pairs in turn.
pub open spec fn site_built_by(chain: Seq<WordInflection>, ps: Seq<(Seq<Seq<char>>, Seq<char>)>, n: int) -> bool {
    &&& chain.len() == n + 1
    &&& forall|k: int| 0 <= k < n ==> #[trigger] site_step(chain[k], chain[k + 1], ps[k])
}

fn site_target_exec(h: &Vec<String>) -> (r: Option<Option<PartOfSpeech>>)
    ensures
        r == site_target(strings_view(h@)),
{
    if h.len() > 0 {
        let first = chars_of(h[0].as_str());
        assert(strings_view(h@)[0] == h@[0]@);
        if contains_exec(&first, "noun") {
            return Some(Some(PartOfSpeech::Noun(Noun::Common)));
        }
        if contains_exec(&first, "indeclinable") {
            return Some(None);
        }
    }
    let verb = String::from_str("verb");
    let mut i: usize = 0;
    while i < h.len()
        invariant
            0 <= i <= h.len(),
            verb@ == "verb"@,
            h@.len() > 0 ==> !contains_text(strings_view(h@)[0], "noun"@) && !contains_text(
                strings_view(h@)[0],
                "indeclinable"@,
            ),
            forall|k: int| 0 <= k < i ==> h@[k]@ != "verb"@,
        decreases h.len() - i,
    {
        if h[i] == verb {
            assert(strings_view(h@)[i as int] == "verb"@);
            return Some(Some(PartOfSpeech::Verb));
        }
        i = i + 1;
    }
    assert(!strings_view(h@).contains("verb"@)) by {
        if strings_view(h@).contains("verb"@) {
            let k = choose|k: int| 0 <= k < strings_view(h@).len() && strings_view(h@)[k] == "verb"@;
            assert(h@[k]@ == "verb"@);
        }
    }
    None
}

/// Builds a paradigm from one of the second dictionary's laid-out tables,
/// starting from `infl`: each pair of headers and text goes to the part of
/// speech its headers name, tagged by the site's header words. Pairs that
/// name no part of speech, or lack a dimension, are set aside with their
/// index and error; the others still go in.
pub fn cells_to_word_inflection(infl: WordInflection, cells: &Vec<TableCell>) -> (r: (WordInflection, Vec<(usize, BuildError)>))
    ensures
        ({
            let ps = site_pairs(cells@, cells@.len() as int);
            &&& r.1@ == site_set_aside(ps, ps.len() as int)
            &&& exists|chain: Seq<WordInflection>|
                #[trigger] site_built_by(chain, ps, ps.len() as int) && chain[0] == infl && chain.last()
                    == r.0
        }),
{
    let ps = site_pairs_exec(cells);
    let ghost pv = pairs_view(ps@);
    let mut infl = infl;
    let ghost first = infl;
    let ghost mut chain: Seq<WordInflection> = seq![infl];
    let mut errors: Vec<(usize, BuildError)> = Vec::new();
    let mut i: usize = 0;
    while i < ps.len()
        invariant
            0 <= i <= ps.len(),
            pv == pairs_view(ps@),
            site_built_by(chain, pv, i as int),
            chain[0] == first,
            chain.last() == infl,
            errors@ == site_set_aside(pv, i as int),
        decreases ps.len() - i,
    {
        let (h, d) = (&ps[i].0, &ps[i].1);
        assert(pv[i as int] == (strings_view(h@), d@));
        let ghost before = infl;
        match site_target_exec(h) {
            None => {
                errors.push((i, BuildError::MissingDimension(Dimension::PartOfSpeech)));
            },
            Some(None) => {},
            Some(Some(PartOfSpeech::Verb)) => {
                let had = infl.verb.is_some();
                let mut t = match infl.verb.take() {
                    Some(t) => t,
                    None => VerbInflectionTenses::empty(),
                };
                match extract_verb_inflection(&mut t, h, d.as_str()) {
                    Ok(()) => {
                        infl.verb = Some(t);
                    },
                    Err(e) => {
                        if had {
                            infl.verb = Some(t);
                        }
                        errors.push((i, e));
                    },
                }
            },
            Some(Some(_)) => {
                let had = infl.noun.is_some();
                let mut g = match infl.noun.take() {
                    Some(g) => g,
                    None => NounInflectionGenders::empty(),
                };
                match extract_noun_inflection(&mut g, h, d.as_str()) {
                    Ok(()) => {
                        infl.noun = Some(g);
                    },
                    Err(e) => {
                        if had {
                            infl.noun = Some(g);
                        }
                        errors.push((i, e));
                    },
                }
            },
        }
        proof {
            let c0 = chain;
            chain = chain.push(infl);
            assert(site_step(before, infl, pv[i as int]));
            assert forall|k: int| 0 <= k < i + 1 implies #[trigger] site_step(chain[k], chain[k + 1], pv[k]) by {
                if k < i {
                    assert(chain[k] == c0[k]);
                    assert(chain[k + 1] == c0[k + 1]);
                }
            }
        }
        i = i + 1;
    }
    assert(site_built_by(chain, pv, pv.len() as int));
    (infl, errors)
}

/// A verb table's title as the dictionary means it: a title naming a
/// "θη-" stem is the passive, so the stem mark goes and "pass" is added.
pub open spec fn adjusted_title(t: Seq<char>) -> Seq<char> {
    if contains_text(t, "θη-"@) {
        remove_all(t, "θη-"@) + " pass"@
    } else {
        t
    }
}

/// The header words a verb table's lower-cased title gives: the adjusted
/// title split at each space.
pub fn title_header_words(title: &str) -> (r: Vec<String>)
    ensures
        strings_view(r@) == pieces_from(adjusted_title(title@), ' ', 0, Seq::empty()),
{
    let cs = chars_of(title);
    let adjusted: Vec<char> = if contains_exec(&cs, "θη-") {
        let mut rest = remove_all_exec(&cs, &chars_of("θη-"));
        let tail = chars_of(" pass");
        let ghost r0 = rest@;
        let mut i: usize = 0;
        while i < tail.len()
            invariant
                0 <= i <= tail.len(),
                tail@ == " pass"@,
                rest@ == r0 + tail@.subrange(0, i as int),
            decreases tail.len() - i,
        {
            rest.push(tail[i]);
            assert(tail@.subrange(0, i + 1) =~= tail@.subrange(0, i as int).push(tail@[i as int]));
            i = i + 1;
        }
        assert(tail@.subrange(0, tail@.len() as int) =~= tail@);
        rest
    } else {
        cs
    };
    let pieces = split_pieces(&adjusted, ' ');
    let mut out: Vec<String> = Vec::new();
    let mut k: usize = 0;
    while k < pieces.len()
        invariant
            0 <= k <= pieces.len(),
            strings_view(out@) == pieces@.map_values(|l: Vec<char>| l@).subrange(0, k as int),
        decreases pieces.len() - k,
    {
        let ghost o0 = strings_view(out@);
        out.push(string_of(&pieces[k]));
        assert(strings_view(out@) =~= o0.push(pieces@[k as int]@));
        assert(pieces@.map_values(|l: Vec<char>| l@).subrange(0, k + 1) =~= pieces@.map_values(|l: Vec<char>| l@).subrange(0, k as int).push(pieces@[k as int]@));
        k = k + 1;
    }
    assert(pieces@.map_values(|l: Vec<char>| l@).subrange(0, k as int) =~= pieces@.map_values(|l: Vec<char>| l@));
    out
}

} // verus!
