//! Associating each data cell of a laid-out table with the headers that
//! govern it, and turning it into a tagged word.
use vstd::prelude::*;
use crate::classify::{classify_header, classify_title, header_tags, title_tags, ParsingComp};
use crate::grid::{Table, TableCell, TableCellType};
use crate::text::chars_of;

verus! {

/// A form read from a table, with the tags of the headers that govern it.
#[derive(Debug, Clone)]
pub struct ParsedWord {
    pub text: String,
    pub parsing: Vec<ParsingComp>,
}

impl ParsedWord {
    pub open spec fn spec_view(&self) -> (Seq<char>, Seq<ParsingComp>) {
        (self.text@, self.parsing@)
    }
}

/// The header cells among the first `n` cells that stand at `(x, y)`, in order.
pub open spec fn headers_in(cells: Seq<TableCell>, n: int, x: int, y: int) -> Seq<TableCell>
    decreases n,
{
    if n <= 0 {
        Seq::empty()
    } else {
        let rest = headers_in(cells, n - 1, x, y);
        let c = cells[n - 1];
        if c.cell_type == TableCellType::Header && c.x == x && c.y == y {
            rest.push(c)
        } else {
            rest
        }
    }
}

pub open spec fn headers_at(cells: Seq<TableCell>, x: int, y: int) -> Seq<TableCell> {
    headers_in(cells, cells.len() as int, x, y)
}

/// The headers of row `y` in the columns left of `x`, left to right.
pub open spec fn row_headers(cells: Seq<TableCell>, x: int, y: int) -> Seq<TableCell>
    decreases x,
{
    if x <= 0 {
        Seq::empty()
    } else {
        row_headers(cells, x - 1, y) + headers_at(cells, x - 1, y)
    }
}

/// The headers of column `x` in rows `k - 1` up to 0, climbing until a row
/// without a header follows one with a header.
pub open spec fn column_headers(cells: Seq<TableCell>, x: int, k: int, found: bool) -> Seq<
    TableCell,
>
    decreases k,
{
    if k <= 0 {
        Seq::empty()
    } else {
        let h = headers_at(cells, x, k - 1);
        if h.len() == 0 {
            if found {
                Seq::empty()
            } else {
                column_headers(cells, x, k - 1, false)
            }
        } else {
            h + column_headers(cells, x, k - 1, true)
        }
    }
}

/// The headers that govern the cell `c`: its row's headers to its left,
/// then the headers above it.
pub open spec fn governing_headers(cells: Seq<TableCell>, c: TableCell) -> Seq<TableCell> {
    row_headers(cells, c.x as int, c.y as int) + column_headers(cells, c.x as int, c.y as int, false)
}

/// The tags of a sequence of headers, header by header.
pub open spec fn headers_tags(hs: Seq<TableCell>) -> Seq<ParsingComp>
    decreases hs.len(),
{
    if hs.len() == 0 {
        Seq::empty()
    } else {
        headers_tags(hs.drop_last()) + header_tags(hs.last().content@)
    }
}

/// A notes header: "notes", with or without a trailing colon, in any ASCII case.
pub open spec fn is_notes(s: Seq<char>) -> bool {
    &&& (s.len() == 5 || (s.len() == 6 && s[5] == ':'))
    &&& (s[0] == 'n' || s[0] == 'N')
    &&& (s[1] == 'o' || s[1] == 'O')
    &&& (s[2] == 't' || s[2] == 'T')
    &&& (s[3] == 'e' || s[3] == 'E')
    &&& (s[4] == 's' || s[4] == 'S')
}

/// A data cell that holds a form: not empty and not the "no form" dash.
pub open spec fn is_form_cell(c: TableCell) -> bool {
    &&& c.cell_type == TableCellType::Data
    &&& c.content@.len() > 0
    &&& c.content@ != "—"@
}

pub open spec fn under_notes(hs: Seq<TableCell>) -> bool {
    exists|i: int| 0 <= i < hs.len() && is_notes(#[trigger] hs[i].content@)
}

/// Whether the cell `c` of `table` yields a word.
pub open spec fn yields_word(table: Table, c: TableCell) -> bool {
    is_form_cell(c) && !under_notes(governing_headers(table.cells@, c))
}

/// The word that the cell `c` of `table` yields: its text, the tags of its
/// governing headers, then the tags of the title.
pub open spec fn word_of(table: Table, c: TableCell) -> (Seq<char>, Seq<ParsingComp>) {
    (c.content@, headers_tags(governing_headers(table.cells@, c)) + title_tags(table.title@))
}

/// The word `v` is what cell `j` of `table` yields.
pub open spec fn yielded_by(table: Table, v: (Seq<char>, Seq<ParsingComp>), j: int) -> bool {
    0 <= j < table.cells@.len() && yields_word(table, table.cells@[j]) && v == word_of(
        table,
        table.cells@[j],
    )
}

pub open spec fn yielded(table: Table, v: (Seq<char>, Seq<ParsingComp>)) -> bool {
    exists|j: int| #[trigger] yielded_by(table, v, j)
}

pub open spec fn listed(words: Seq<ParsedWord>, v: (Seq<char>, Seq<ParsingComp>)) -> bool {
    exists|i: int| 0 <= i < words.len() && #[trigger] words[i].spec_view() == v
}

fn copy_cell(c: &TableCell) -> (r: TableCell)
    ensures
        r == *c,
{
    TableCell { cell_type: c.cell_type, content: c.content.clone(), x: c.x, y: c.y }
}

fn headers_at_exec(cells: &Vec<TableCell>, x: usize, y: usize) -> (r: Vec<TableCell>)
    ensures
        r@ == headers_at(cells@, x as int, y as int),
{
    let mut r: Vec<TableCell> = Vec::new();
    let mut i: usize = 0;
    while i < cells.len()
        invariant
            0 <= i <= cells.len(),
            r@ == headers_in(cells@, i as int, x as int, y as int),
        decreases cells.len() - i,
    {
        let c = &cells[i];
        if c.cell_type == TableCellType::Header && c.x == x && c.y == y {
            r.push(copy_cell(c));
        }
        i = i + 1;
    }
    r
}

/// The governing headers of cell `c`, in order.
fn governing_exec(cells: &Vec<TableCell>, c: &TableCell) -> (r: Vec<TableCell>)
    ensures
        r@ == governing_headers(cells@, *c),
{
    let mut r: Vec<TableCell> = Vec::new();
    let mut x: usize = 0;
    while x < c.x
        invariant
            0 <= x <= c.x,
            r@ == row_headers(cells@, x as int, c.y as int),
        decreases c.x - x,
    {
        let mut h = headers_at_exec(cells, x, c.y);
        r.append(&mut h);
        x = x + 1;
    }
    let ghost rows = r@;
    let ghost target = column_headers(cells@, c.x as int, c.y as int, false);
    let mut col: Vec<TableCell> = Vec::new();
    let mut found = false;
    let mut k: usize = c.y;
    while k > 0
        invariant_except_break
            0 <= k <= c.y,
            rows == r@,
            rows == row_headers(cells@, c.x as int, c.y as int),
            col@ + column_headers(cells@, c.x as int, k as int, found) == target,
        ensures
            rows == r@,
            col@ == target,
        decreases k,
    {
        let mut h = headers_at_exec(cells, c.x, k - 1);
        if h.len() == 0 {
            if found {
                assert(column_headers(cells@, c.x as int, k as int, found) =~= Seq::<TableCell>::empty());
                assert(col@ + Seq::<TableCell>::empty() =~= col@);
                break;
            }
        } else {
            let ghost c0 = col@;
            let ghost hs = h@;
            col.append(&mut h);
            assert(c0 + (hs + column_headers(cells@, c.x as int, k - 1, true)) =~= col@ + column_headers(cells@, c.x as int, k - 1, true));
            found = true;
        }
        k = k - 1;
    }
    r.append(&mut col);
    r
}

fn is_notes_exec(s: &str) -> (r: bool)
    ensures
        r == is_notes(s@),
{
    let cs = chars_of(s);
    if !(cs.len() == 5 || (cs.len() == 6 && cs[5] == ':')) {
        return false;
    }
    (cs[0] == 'n' || cs[0] == 'N') && (cs[1] == 'o' || cs[1] == 'O') && (cs[2] == 't' || cs[2]
        == 'T') && (cs[3] == 'e' || cs[3] == 'E') && (cs[4] == 's' || cs[4] == 'S')
}

fn same_word(a: &ParsedWord, b: &ParsedWord) -> (r: bool)
    ensures
        r == (a.spec_view() == b.spec_view()),
{
    if a.text != b.text || a.parsing.len() != b.parsing.len() {
        return false;
    }
    let mut i: usize = 0;
    while i < a.parsing.len()
        invariant
            0 <= i <= a.parsing.len(),
            a.parsing.len() == b.parsing.len(),
            a.text@ == b.text@,
            forall|j: int| 0 <= j < i ==> a.parsing@[j] == b.parsing@[j],
        decreases a.parsing.len() - i,
    {
        if a.parsing[i] != b.parsing[i] {
            return false;
        }
        i = i + 1;
    }
    assert(a.parsing@ =~= b.parsing@);
    true
}

fn contains_word(words: &Vec<ParsedWord>, w: &ParsedWord) -> (r: bool)
    ensures
        r == listed(words@, w.spec_view()),
{
    let mut i: usize = 0;
    while i < words.len()
        invariant
            0 <= i <= words.len(),
            forall|j: int| 0 <= j < i ==> #[trigger] words@[j].spec_view() != w.spec_view(),
        decreases words.len() - i,
    {
        if same_word(&words[i], w) {
            return true;
        }
        i = i + 1;
    }
    false
}

/// Turns every data cell of `table` that holds a form, and stands under no
/// notes header, into a word tagged by its governing headers and the title.
/// Equal words are kept once.
pub fn parse_table(table: &Table) -> (r: Vec<ParsedWord>)
    ensures
        forall|i: int| 0 <= i < r@.len() ==> yielded(*table, #[trigger] r@[i].spec_view()),
        forall|j: int|
            0 <= j < table.cells@.len() && yields_word(*table, #[trigger] table.cells@[j]) ==> listed(
                r@,
                word_of(*table, table.cells@[j]),
            ),
        forall|a: int, b: int|
            0 <= a < b < r@.len() ==> #[trigger] r@[a].spec_view() != #[trigger] r@[b].spec_view(),
{
    let cells = &table.cells;
    let title = classify_title(table.title.as_str());
    let dash = String::from_str("—");
    let mut words: Vec<ParsedWord> = Vec::new();
    let mut n: usize = 0;
    while n < cells.len()
        invariant
            0 <= n <= cells.len(),
            cells == table.cells,
            dash@ == "—"@,
            title@ == title_tags(table.title@),
            forall|i: int| 0 <= i < words@.len() ==> yielded(*table, #[trigger] words@[i].spec_view()),
            forall|j: int|
                0 <= j < n && yields_word(*table, #[trigger] table.cells@[j]) ==> listed(
                    words@,
                    word_of(*table, table.cells@[j]),
                ),
            forall|a: int, b: int|
                0 <= a < b < words@.len() ==> #[trigger] words@[a].spec_view() != #[trigger] words@[b].spec_view(),
        decreases cells.len() - n,
    {
        let cell = &cells[n];
        if cell.cell_type == TableCellType::Data && cell.content.as_str().unicode_len() > 0
            && cell.content != dash {
            let hs = governing_exec(cells, cell);
            let ghost gov = hs@;
            let mut notes = false;
            let mut tags: Vec<ParsingComp> = Vec::new();
            let mut i: usize = 0;
            while i < hs.len()
                invariant
                    0 <= i <= hs.len(),
                    hs@ == gov,
                    tags@ == headers_tags(gov.subrange(0, i as int)),
                    notes == under_notes(gov.subrange(0, i as int)),
                decreases hs.len() - i,
            {
                let h = &hs[i];
                let ghost pre = gov.subrange(0, i as int);
                let ghost next = gov.subrange(0, i + 1);
                assert(next.drop_last() =~= pre);
                assert(next.last() == *h);
                let mut ht = classify_header(h.content.as_str());
                tags.append(&mut ht);
                if is_notes_exec(h.content.as_str()) {
                    notes = true;
                }
                proof {
                    if under_notes(next) && !under_notes(pre) {
                        let k = choose|k: int| 0 <= k < next.len() && is_notes(#[trigger] next[k].content@);
                        assert(k == i);
                    }
                    if under_notes(pre) {
                        let k = choose|k: int| 0 <= k < pre.len() && is_notes(#[trigger] pre[k].content@);
                        assert(next[k] == pre[k]);
                    }
                    if is_notes(h.content@) {
                        assert(next[i as int] == *h);
                    }
                }
                i = i + 1;
            }
            assert(gov.subrange(0, gov.len() as int) =~= gov);
            if !notes {
                let mut tt = title.clone();
                assert(tt@ =~= title@);
                tags.append(&mut tt);
                let w = ParsedWord { text: cell.content.clone(), parsing: tags };
                assert(w.spec_view() == word_of(*table, table.cells@[n as int]));
                assert(yields_word(*table, table.cells@[n as int]));
                assert(yielded_by(*table, w.spec_view(), n as int));
                if !contains_word(&words, &w) {
                    let ghost w0 = words@;
                    words.push(w);
                    assert forall|i: int| 0 <= i < w0.len() implies #[trigger] words@[i] == w0[i] by {}
                    assert(words@[w0.len() as int].spec_view() == word_of(*table, table.cells@[n as int]));
                    assert forall|j: int|
                        0 <= j <= n && yields_word(*table, #[trigger] table.cells@[j]) implies listed(
                        words@,
                        word_of(*table, table.cells@[j]),
                    ) by {
                        if j < n {
                            let i = choose|i: int| 0 <= i < w0.len() && #[trigger] w0[i].spec_view() == word_of(*table, table.cells@[j]);
                            assert(words@[i] == w0[i]);
                        } else {
                            assert(words@[w0.len() as int].spec_view() == word_of(*table, table.cells@[j]));
                        }
                    }
                }
            }
        }
        n = n + 1;
    }
    words
}

} // verus!
