//! Diacritic-aware fuzzy matching: candidates are ranked against an
//! observed spelling by edit similarity, once as written and once with
//! accents and breathings stripped, so that forms differing only in their
//! diacritics rank above forms differing in their letters.
use vstd::prelude::*;
use crate::text::{chars_of, string_of};

verus! {

/// Letters carrying Greek diacritics, by code point range, and the bare
/// letter each range stands for.
pub open spec fn diacritic_table() -> Seq<(u32, u32, char)> {
    seq![
        (0x0386, 0x0386, 'Α'),
        (0x0388, 0x0388, 'Ε'),
        (0x0389, 0x0389, 'Η'),
        (0x038a, 0x038a, 'Ι'),
        (0x038c, 0x038c, 'Ο'),
        (0x038e, 0x038e, 'Υ'),
        (0x038f, 0x038f, 'Ω'),
        (0x0390, 0x0390, 'ι'),
        (0x03aa, 0x03aa, 'Ι'),
        (0x03ab, 0x03ab, 'Υ'),
        (0x03ac, 0x03ac, 'α'),
        (0x03ad, 0x03ad, 'ε'),
        (0x03ae, 0x03ae, 'η'),
        (0x03af, 0x03af, 'ι'),
        (0x03b0, 0x03b0, 'υ'),
        (0x03ca, 0x03ca, 'ι'),
        (0x03cb, 0x03cb, 'υ'),
        (0x03cc, 0x03cc, 'ο'),
        (0x03cd, 0x03cd, 'υ'),
        (0x03ce, 0x03ce, 'ω'),
        (0x1f00, 0x1f07, 'α'),
        (0x1f08, 0x1f0f, 'Α'),
        (0x1f10, 0x1f15, 'ε'),
        (0x1f18, 0x1f1d, 'Ε'),
        (0x1f20, 0x1f27, 'η'),
        (0x1f28, 0x1f2f, 'Η'),
        (0x1f30, 0x1f37, 'ι'),
        (0x1f38, 0x1f3f, 'Ι'),
        (0x1f40, 0x1f45, 'ο'),
        (0x1f48, 0x1f4d, 'Ο'),
        (0x1f50, 0x1f57, 'υ'),
        (0x1f59, 0x1f5f, 'Υ'),
        (0x1f60, 0x1f67, 'ω'),
        (0x1f68, 0x1f6f, 'Ω'),
        (0x1f70, 0x1f71, 'α'),
        (0x1f72, 0x1f73, 'ε'),
        (0x1f74, 0x1f75, 'η'),
        (0x1f76, 0x1f77, 'ι'),
        (0x1f78, 0x1f79, 'ο'),
        (0x1f7a, 0x1f7b, 'υ'),
        (0x1f7c, 0x1f7d, 'ω'),
        (0x1f80, 0x1f87, 'α'),
        (0x1f88, 0x1f8f, 'Α'),
        (0x1f90, 0x1f97, 'η'),
        (0x1f98, 0x1f9f, 'Η'),
        (0x1fa0, 0x1fa7, 'ω'),
        (0x1fa8, 0x1faf, 'Ω'),
        (0x1fb0, 0x1fb4, 'α'),
        (0x1fb6, 0x1fb7, 'α'),
        (0x1fb8, 0x1fbc, 'Α'),
        (0x1fc2, 0x1fc4, 'η'),
        (0x1fc6, 0x1fc7, 'η'),
        (0x1fc8, 0x1fc9, 'Ε'),
        (0x1fca, 0x1fcc, 'Η'),
        (0x1fd0, 0x1fd3, 'ι'),
        (0x1fd6, 0x1fd7, 'ι'),
        (0x1fd8, 0x1fdb, 'Ι'),
        (0x1fe0, 0x1fe3, 'υ'),
        (0x1fe4, 0x1fe5, 'ρ'),
        (0x1fe6, 0x1fe7, 'υ'),
        (0x1fe8, 0x1feb, 'Υ'),
        (0x1fec, 0x1fec, 'Ρ'),
        (0x1ff2, 0x1ff4, 'ω'),
        (0x1ff6, 0x1ff7, 'ω'),
        (0x1ff8, 0x1ff9, 'Ο'),
        (0x1ffa, 0x1ffc, 'Ω')
    ]
}

fn diacritic_ranges() -> (r: Vec<(u32, u32, char)>)
    ensures
        r@ == diacritic_table(),
{
    let r = vec![
        (0x0386, 0x0386, 'Α'),
        (0x0388, 0x0388, 'Ε'),
        (0x0389, 0x0389, 'Η'),
        (0x038a, 0x038a, 'Ι'),
        (0x038c, 0x038c, 'Ο'),
        (0x038e, 0x038e, 'Υ'),
        (0x038f, 0x038f, 'Ω'),
        (0x0390, 0x0390, 'ι'),
        (0x03aa, 0x03aa, 'Ι'),
        (0x03ab, 0x03ab, 'Υ'),
        (0x03ac, 0x03ac, 'α'),
        (0x03ad, 0x03ad, 'ε'),
        (0x03ae, 0x03ae, 'η'),
        (0x03af, 0x03af, 'ι'),
        (0x03b0, 0x03b0, 'υ'),
        (0x03ca, 0x03ca, 'ι'),
        (0x03cb, 0x03cb, 'υ'),
        (0x03cc, 0x03cc, 'ο'),
        (0x03cd, 0x03cd, 'υ'),
        (0x03ce, 0x03ce, 'ω'),
        (0x1f00, 0x1f07, 'α'),
        (0x1f08, 0x1f0f, 'Α'),
        (0x1f10, 0x1f15, 'ε'),
        (0x1f18, 0x1f1d, 'Ε'),
        (0x1f20, 0x1f27, 'η'),
        (0x1f28, 0x1f2f, 'Η'),
        (0x1f30, 0x1f37, 'ι'),
        (0x1f38, 0x1f3f, 'Ι'),
        (0x1f40, 0x1f45, 'ο'),
        (0x1f48, 0x1f4d, 'Ο'),
        (0x1f50, 0x1f57, 'υ'),
        (0x1f59, 0x1f5f, 'Υ'),
        (0x1f60, 0x1f67, 'ω'),
        (0x1f68, 0x1f6f, 'Ω'),
        (0x1f70, 0x1f71, 'α'),
        (0x1f72, 0x1f73, 'ε'),
        (0x1f74, 0x1f75, 'η'),
        (0x1f76, 0x1f77, 'ι'),
        (0x1f78, 0x1f79, 'ο'),
        (0x1f7a, 0x1f7b, 'υ'),
        (0x1f7c, 0x1f7d, 'ω'),
        (0x1f80, 0x1f87, 'α'),
        (0x1f88, 0x1f8f, 'Α'),
        (0x1f90, 0x1f97, 'η'),
        (0x1f98, 0x1f9f, 'Η'),
        (0x1fa0, 0x1fa7, 'ω'),
        (0x1fa8, 0x1faf, 'Ω'),
        (0x1fb0, 0x1fb4, 'α'),
        (0x1fb6, 0x1fb7, 'α'),
        (0x1fb8, 0x1fbc, 'Α'),
        (0x1fc2, 0x1fc4, 'η'),
        (0x1fc6, 0x1fc7, 'η'),
        (0x1fc8, 0x1fc9, 'Ε'),
        (0x1fca, 0x1fcc, 'Η'),
        (0x1fd0, 0x1fd3, 'ι'),
        (0x1fd6, 0x1fd7, 'ι'),
        (0x1fd8, 0x1fdb, 'Ι'),
        (0x1fe0, 0x1fe3, 'υ'),
        (0x1fe4, 0x1fe5, 'ρ'),
        (0x1fe6, 0x1fe7, 'υ'),
        (0x1fe8, 0x1feb, 'Υ'),
        (0x1fec, 0x1fec, 'Ρ'),
        (0x1ff2, 0x1ff4, 'ω'),
        (0x1ff6, 0x1ff7, 'ω'),
        (0x1ff8, 0x1ff9, 'Ο'),
        (0x1ffa, 0x1ffc, 'Ω')
    ];
    assert(r@ =~= diacritic_table());
    r
}

/// A combining diacritical mark.
pub open spec fn is_combining(c: char) -> bool {
    0x0300 <= (c as u32) <= 0x036f
}

/// The bare letter of `c` by the first range of `table[..n]` that holds it.
pub open spec fn base_in(table: Seq<(u32, u32, char)>, n: int, c: char) -> Option<char>
    decreases n,
{
    if n <= 0 {
        None
    } else {
        let rest = base_in(table, n - 1, c);
        if rest is Some {
            rest
        } else if table[n - 1].0 <= (c as u32) <= table[n - 1].1 {
            Some(table[n - 1].2)
        } else {
            None
        }
    }
}

/// `c` without its diacritics: its bare letter, or itself.
pub open spec fn bare(c: char) -> char {
    match base_in(diacritic_table(), diacritic_table().len() as int, c) {
        Some(b) => b,
        None => c,
    }
}

/// `s` with combining marks dropped and accented letters made bare.
pub open spec fn strip_spec(s: Seq<char>) -> Seq<char>
    decreases s.len(),
{
    if s.len() == 0 {
        Seq::empty()
    } else if is_combining(s.last()) {
        strip_spec(s.drop_last())
    } else {
        strip_spec(s.drop_last()).push(bare(s.last()))
    }
}

proof fn lemma_strip_len(s: Seq<char>)
    ensures
        strip_spec(s).len() <= s.len(),
    decreases s.len(),
{
    if s.len() > 0 {
        lemma_strip_len(s.drop_last());
    }
}

proof fn lemma_base_kept(table: Seq<(u32, u32, char)>, k: int, n: int, c: char)
    requires
        0 <= k <= n,
        base_in(table, k, c) is Some,
    ensures
        base_in(table, n, c) == base_in(table, k, c),
    decreases n - k,
{
    if n > k {
        lemma_base_kept(table, k, n - 1, c);
    }
}

fn bare_exec(table: &Vec<(u32, u32, char)>, c: char) -> (r: char)
    requires
        table@ == diacritic_table(),
    ensures
        r == bare(c),
{
    let code = c as u32;
    let mut i: usize = 0;
    while i < table.len()
        invariant
            0 <= i <= table.len(),
            table@ == diacritic_table(),
            code == c as u32,
            base_in(table@, i as int, c) is None,
        decreases table.len() - i,
    {
        let (lo, hi, b) = table[i];
        assert(table@[i as int] == (lo, hi, b));
        if lo <= code && code <= hi {
            proof {
                assert(base_in(table@, i + 1, c) == Some(b));
                lemma_base_kept(table@, i + 1, table@.len() as int, c);
            }
            return b;
        }
        i = i + 1;
    }
    c
}

/// The letter without its diacritics.
pub fn bare_char(c: char) -> (r: char)
    ensures
        r == bare(c),
{
    bare_exec(&diacritic_ranges(), c)
}

/// The string with its Greek diacritics removed.
pub fn remove_diacritics(s: &str) -> (r: String)
    ensures
        r@ == strip_spec(s@),
{
    let table = diacritic_ranges();
    let cs = chars_of(s);
    let mut out: Vec<char> = Vec::new();
    let mut i: usize = 0;
    while i < cs.len()
        invariant
            0 <= i <= cs.len(),
            cs@ == s@,
            table@ == diacritic_table(),
            out@ == strip_spec(cs@.subrange(0, i as int)),
        decreases cs.len() - i,
    {
        let c = cs[i];
        let ghost pre = cs@.subrange(0, i as int);
        assert(cs@.subrange(0, i + 1).drop_last() =~= pre);
        let code = c as u32;
        if !(0x0300 <= code && code <= 0x036f) {
            out.push(bare_exec(&table, c));
        }
        i = i + 1;
    }
    assert(cs@.subrange(0, cs.len() as int) =~= s@);
    string_of(&out)
}

pub uninterp spec fn dl_distance(a: Seq<char>, b: Seq<char>) -> nat;

pub open spec fn longer(a: Seq<char>, b: Seq<char>) -> int {
    if a.len() >= b.len() {
        a.len() as int
    } else {
        b.len() as int
    }
}

/// Relies on `strsim::damerau_levenshtein`: the Damerau-Levenshtein
/// distance between the strings, counted in characters. Its documentation
/// puts the normalised score `1 - d / max(len)` between 0 and 1, with 1
/// meaning the strings are the same: the distance is at most the longer
/// length and is zero exactly for equal strings. The distance is a metric
/// (the triangle inequality holds, the documentation says), so it does not
/// depend on the order of the strings.
#[verifier::external_body]
fn damerau_levenshtein(a: &str, b: &str) -> (r: usize)
    ensures
        r == dl_distance(a@, b@),
        r == dl_distance(b@, a@),
        r <= longer(a@, b@),
        r == 0 <==> a@ == b@,
{
    strsim::damerau_levenshtein(a, b)
}

/// The longest string, in characters, that scoring accepts.
pub const MAX_MATCH_LEN: usize = 2147483648;

/// A score in [0, 2], as the fraction `num / den`.
#[derive(Debug, Clone, Copy)]
pub struct Score {
    pub num: u64,
    pub den: u64,
}

impl Score {
    pub open spec fn spec_view(self) -> (int, int) {
        (self.num as int, self.den as int)
    }
}

/// Edit similarity in [0, 1] as a fraction: one less the distance over the
/// longer length, and one for two empty strings.
pub open spec fn similarity(a: Seq<char>, b: Seq<char>) -> (int, int) {
    let m = longer(a, b);
    if m == 0 {
        (1, 1)
    } else {
        (m - dl_distance(a, b), m)
    }
}

/// The score of `candidate` against `observed`: the similarity as written
/// plus the similarity with diacritics stripped.
pub open spec fn score_of(observed: Seq<char>, candidate: Seq<char>) -> (int, int) {
    let (n1, d1) = similarity(observed, candidate);
    let (n2, d2) = similarity(strip_spec(observed), strip_spec(candidate));
    (n1 * d2 + n2 * d1, d1 * d2)
}

/// `a` is a strictly higher score than `b`.
pub open spec fn score_gt(a: (int, int), b: (int, int)) -> bool {
    a.0 * b.1 > b.0 * a.1
}

proof fn lemma_gt_ge_trans(x: (int, int), y: (int, int), z: (int, int))
    requires
        x.1 > 0,
        y.1 > 0,
        z.1 > 0,
        score_gt(x, y),
        !score_gt(z, y),
    ensures
        score_gt(x, z),
{
    let (x0, x1) = x;
    let (y0, y1) = y;
    let (z0, z1) = z;
    assert(x0 * y1 * z1 > y0 * x1 * z1) by (nonlinear_arith)
        requires
            x0 * y1 > y0 * x1,
            z1 > 0,
    ;
    assert(y0 * z1 * x1 >= z0 * y1 * x1) by (nonlinear_arith)
        requires
            y0 * z1 >= z0 * y1,
            x1 > 0,
    ;
    assert(y0 * x1 * z1 == y0 * z1 * x1) by (nonlinear_arith);
    assert(z0 * y1 * x1 == (z0 * x1) * y1) by (nonlinear_arith);
    assert(x0 * y1 * z1 == (x0 * z1) * y1) by (nonlinear_arith);
    assert(x0 * z1 > z0 * x1) by (nonlinear_arith)
        requires
            (x0 * z1) * y1 > (z0 * x1) * y1,
            y1 > 0,
    ;
}

proof fn lemma_gt_asym(x: (int, int), y: (int, int))
    requires
        score_gt(x, y),
    ensures
        !score_gt(y, x),
{
}

fn similarity_exec(a: &str, b: &str) -> (r: (u64, u64))
    requires
        a@.len() <= MAX_MATCH_LEN,
        b@.len() <= MAX_MATCH_LEN,
    ensures
        r.0 as int == similarity(a@, b@).0,
        r.1 as int == similarity(a@, b@).1,
        1 <= r.1 <= MAX_MATCH_LEN,
        r.0 <= r.1,
        r.0 == r.1 <==> a@ == b@,
        similarity(a@, b@) == similarity(b@, a@),
{
    let la = a.unicode_len();
    let lb = b.unicode_len();
    let m = if la >= lb {
        la
    } else {
        lb
    };
    if m == 0 {
        assert(a@ =~= b@);
        return (1, 1);
    }
    let d = damerau_levenshtein(a, b);
    assert(longer(a@, b@) == m && longer(b@, a@) == m);
    assert(dl_distance(a@, b@) == d && dl_distance(b@, a@) == d);
    assert(similarity(a@, b@) == (m - d, m as int));
    assert(similarity(b@, a@) == (m - d, m as int));
    ((m - d) as u64, m as u64)
}

/// The score of `candidate` against `observed`, in [0, 2]; an exact match
/// scores 2.
pub fn similarity_score(observed: &str, candidate: &str) -> (r: Score)
    requires
        observed@.len() <= MAX_MATCH_LEN,
        candidate@.len() <= MAX_MATCH_LEN,
    ensures
        r.spec_view() == score_of(observed@, candidate@),
        r.den > 0,
        r.den <= MAX_MATCH_LEN * MAX_MATCH_LEN,
        r.num <= 2 * r.den,
        r.num == 2 * r.den <==> observed@ == candidate@,
        strip_spec(observed@) == strip_spec(candidate@) ==> r.num >= r.den,
        observed@ != candidate@ ==> similarity(observed@, candidate@).0 < similarity(observed@, candidate@).1,
        strip_spec(observed@) != strip_spec(candidate@) ==> similarity(strip_spec(observed@), strip_spec(candidate@)).0
            < similarity(strip_spec(observed@), strip_spec(candidate@)).1,
        score_of(observed@, candidate@) == score_of(candidate@, observed@),
{
    let (n1, d1) = similarity_exec(observed, candidate);
    let so = remove_diacritics(observed);
    let sc = remove_diacritics(candidate);
    proof {
        lemma_strip_len(observed@);
        lemma_strip_len(candidate@);
    }
    let (n2, d2) = similarity_exec(so.as_str(), sc.as_str());
    assert(d1 * d2 <= MAX_MATCH_LEN * MAX_MATCH_LEN) by (nonlinear_arith)
        requires
            d1 <= MAX_MATCH_LEN,
            d2 <= MAX_MATCH_LEN,
    ;
    assert(n1 * d2 <= d1 * d2) by (nonlinear_arith)
        requires
            n1 <= d1,
    ;
    assert(n2 * d1 <= d1 * d2) by (nonlinear_arith)
        requires
            n2 <= d2,
    ;
    assert(d1 * d2 > 0) by (nonlinear_arith)
        requires
            d1 >= 1,
            d2 >= 1,
    ;
    assert(observed@ == candidate@ ==> n1 * d2 + n2 * d1 == 2 * (d1 * d2)) by (nonlinear_arith)
        requires
            observed@ == candidate@ ==> n1 == d1 && n2 == d2,
    ;
    assert(n1 * d2 + n2 * d1 == 2 * (d1 * d2) ==> n1 == d1) by (nonlinear_arith)
        requires
            n1 <= d1,
            n2 <= d2,
            d1 >= 1,
            d2 >= 1,
    ;
    assert(n2 == d2 ==> n1 * d2 + n2 * d1 >= d1 * d2) by (nonlinear_arith)
        requires
            n1 >= 0,
            d1 >= 1,
    ;
    assert(score_of(observed@, candidate@) == score_of(candidate@, observed@)) by (nonlinear_arith)
        requires
            similarity(observed@, candidate@) == similarity(candidate@, observed@),
            similarity(strip_spec(observed@), strip_spec(candidate@)) == similarity(strip_spec(candidate@), strip_spec(observed@)),
    ;
    Score { num: n1 * d2 + n2 * d1, den: d1 * d2 }
}

fn gt_exec(a: Score, b: Score) -> (r: bool)
    requires
        a.den <= MAX_MATCH_LEN * MAX_MATCH_LEN,
        b.den <= MAX_MATCH_LEN * MAX_MATCH_LEN,
        a.num <= 2 * a.den,
        b.num <= 2 * b.den,
    ensures
        r == score_gt(a.spec_view(), b.spec_view()),
{
    assert((a.num as int) * (b.den as int) <= 2 * MAX_MATCH_LEN * MAX_MATCH_LEN * MAX_MATCH_LEN * MAX_MATCH_LEN) by (nonlinear_arith)
        requires
            a.num <= 2 * a.den,
            a.den <= MAX_MATCH_LEN * MAX_MATCH_LEN,
            b.den <= MAX_MATCH_LEN * MAX_MATCH_LEN,
    ;
    assert((b.num as int) * (a.den as int) <= 2 * MAX_MATCH_LEN * MAX_MATCH_LEN * MAX_MATCH_LEN * MAX_MATCH_LEN) by (nonlinear_arith)
        requires
            b.num <= 2 * b.den,
            a.den <= MAX_MATCH_LEN * MAX_MATCH_LEN,
            b.den <= MAX_MATCH_LEN * MAX_MATCH_LEN,
    ;
    (a.num as u128) * (b.den as u128) > (b.num as u128) * (a.den as u128)
}

/// A candidate with its place in the candidate list and its score.
#[derive(Debug, Clone)]
pub struct Scored {
    pub value: String,
    pub index: usize,
    pub score: Score,
}

/// `x` ranks before `y`: a higher score, or an equal one and an earlier place.
pub open spec fn ranked_before(x: Scored, y: Scored) -> bool {
    score_gt(x.score.spec_view(), y.score.spec_view()) || (!score_gt(
        y.score.spec_view(),
        x.score.spec_view(),
    ) && x.index < y.index)
}

/// `r` holds every candidate once, with its score against `observed`,
/// ordered by descending score and, among equal scores, by place in the list.
pub open spec fn is_ranking(observed: Seq<char>, list: Seq<String>, r: Seq<Scored>) -> bool {
    &&& r.len() == list.len()
    &&& forall|k: int|
        0 <= k < r.len() ==> {
            &&& (#[trigger] r[k]).index < list.len()
            &&& r[k].value@ == list[r[k].index as int]@
            &&& r[k].score.spec_view() == score_of(observed, list[r[k].index as int]@)
            &&& r[k].score.den > 0
        }
    &&& forall|a: int, b: int| 0 <= a < b < r.len() ==> (#[trigger] r[a]).index != (#[trigger] r[b]).index
    &&& forall|a: int, b: int| 0 <= a < b < r.len() ==> ranked_before(#[trigger] r[a], #[trigger] r[b])
}

pub open spec fn all_within(observed: Seq<char>, list: Seq<String>) -> bool {
    observed.len() <= MAX_MATCH_LEN && forall|i: int|
        0 <= i < list.len() ==> (#[trigger] list[i])@.len() <= MAX_MATCH_LEN
}

/// Ranks the candidates against `observed`, best first; ties keep the
/// order of the list. A list of `observed` alone ranks it first with the
/// full score of 2.
pub fn closest_with_score(observed: &str, list: &Vec<String>) -> (r: Vec<Scored>)
    requires
        all_within(observed@, list@),
    ensures
        is_ranking(observed@, list@, r@),
        forall|k: int| 0 <= k < r@.len() ==> (#[trigger] r@[k]).score.num <= 2 * r@[k].score.den,
        list@.len() == 1 && list@[0]@ == observed@ ==> r@[0].value@ == observed@ && r@[0].score.num
            == 2 * r@[0].score.den,
{
    let mut out: Vec<Scored> = Vec::new();
    let mut i: usize = 0;
    while i < list.len()
        invariant
            0 <= i <= list.len(),
            all_within(observed@, list@),
            out@.len() == i,
            forall|k: int|
                0 <= k < out@.len() ==> {
                    &&& (#[trigger] out@[k]).index < i
                    &&& out@[k].value@ == list@[out@[k].index as int]@
                    &&& out@[k].score.spec_view() == score_of(observed@, list@[out@[k].index as int]@)
                    &&& out@[k].score.den > 0
                    &&& out@[k].score.den <= MAX_MATCH_LEN * MAX_MATCH_LEN
                    &&& out@[k].score.num <= 2 * out@[k].score.den
                    &&& (list@[out@[k].index as int]@ == observed@ ==> out@[k].score.num == 2 * out@[k].score.den)
                },
            forall|a: int, b: int| 0 <= a < b < out@.len() ==> (#[trigger] out@[a]).index != (#[trigger] out@[b]).index,
            forall|a: int, b: int| 0 <= a < b < out@.len() ==> ranked_before(#[trigger] out@[a], #[trigger] out@[b]),
        decreases list.len() - i,
    {
        assert(list@[i as int]@.len() <= MAX_MATCH_LEN);
        let sc = similarity_score(observed, list[i].as_str());
        let entry = Scored { value: list[i].clone(), index: i, score: sc };
        let mut p: usize = 0;
        while p < out.len() && !gt_exec(sc, out[p].score)
            invariant
                0 <= p <= out@.len(),
                sc.den <= MAX_MATCH_LEN * MAX_MATCH_LEN,
                sc.num <= 2 * sc.den,
                forall|k: int|
                    0 <= k < out@.len() ==> (#[trigger] out@[k]).score.den <= MAX_MATCH_LEN * MAX_MATCH_LEN
                        && out@[k].score.num <= 2 * out@[k].score.den,
                forall|k: int| 0 <= k < p ==> !score_gt(sc.spec_view(), (#[trigger] out@[k]).score.spec_view()),
            decreases out@.len() - p,
        {
            p = p + 1;
        }
        let ghost o0 = out@;
        out.insert(p, entry);
        assert(out@ == o0.insert(p as int, entry));
        assert forall|a: int, b: int| 0 <= a < b < out@.len() implies ranked_before(#[trigger] out@[a], #[trigger] out@[b]) by {
            if b < p {
                assert(out@[a] == o0[a] && out@[b] == o0[b]);
            } else if b == p {
                assert(out@[a] == o0[a]);
                assert(!score_gt(sc.spec_view(), o0[a].score.spec_view()));
            } else if a > p {
                assert(out@[a] == o0[a - 1] && out@[b] == o0[b - 1]);
            } else if a == p {
                assert(out@[b] == o0[b - 1]);
                assert(score_gt(sc.spec_view(), o0[p as int].score.spec_view()));
                if b - 1 > p {
                    assert(ranked_before(o0[p as int], o0[b - 1]));
                    if score_gt(o0[p as int].score.spec_view(), o0[b - 1].score.spec_view()) {
                        lemma_gt_asym(o0[p as int].score.spec_view(), o0[b - 1].score.spec_view());
                    }
                    lemma_gt_ge_trans(sc.spec_view(), o0[p as int].score.spec_view(), o0[b - 1].score.spec_view());
                }
            } else {
                assert(out@[a] == o0[a] && out@[b] == o0[b - 1]);
            }
        }
        assert forall|a: int, b: int| 0 <= a < b < out@.len() implies (#[trigger] out@[a]).index != (#[trigger] out@[b]).index by {
            if b < p {
                assert(out@[a] == o0[a] && out@[b] == o0[b]);
            } else if b == p {
                assert(out@[a] == o0[a]);
            } else if a > p {
                assert(out@[a] == o0[a - 1] && out@[b] == o0[b - 1]);
            } else if a == p {
                assert(out@[b] == o0[b - 1]);
            } else {
                assert(out@[a] == o0[a] && out@[b] == o0[b - 1]);
            }
        }
        assert forall|k: int| 0 <= k < out@.len() implies {
            &&& (#[trigger] out@[k]).index < i + 1
            &&& out@[k].value@ == list@[out@[k].index as int]@
            &&& out@[k].score.spec_view() == score_of(observed@, list@[out@[k].index as int]@)
            &&& out@[k].score.den > 0
            &&& out@[k].score.den <= MAX_MATCH_LEN * MAX_MATCH_LEN
            &&& out@[k].score.num <= 2 * out@[k].score.den
            &&& (list@[out@[k].index as int]@ == observed@ ==> out@[k].score.num == 2 * out@[k].score.den)
        } by {
            if k < p {
                assert(out@[k] == o0[k]);
            } else if k > p {
                assert(out@[k] == o0[k - 1]);
            }
        }
        i = i + 1;
    }
    out
}

/// The candidates, best first: `closest_with_score` without the scores.
pub fn closest(observed: &str, list: &Vec<String>) -> (r: Vec<String>)
    requires
        all_within(observed@, list@),
    ensures
        exists|ranked: Seq<Scored>|
            #[trigger] is_ranking(observed@, list@, ranked) && r@.map_values(|s: String| s@)
                == ranked.map_values(|x: Scored| x.value@),
{
    let ranked = closest_with_score(observed, list);
    let mut out: Vec<String> = Vec::new();
    let mut k: usize = 0;
    while k < ranked.len()
        invariant
            0 <= k <= ranked.len(),
            out@.map_values(|s: String| s@) == ranked@.subrange(0, k as int).map_values(|x: Scored| x.value@),
        decreases ranked.len() - k,
    {
        let ghost o0 = out@;
        out.push(ranked[k].value.clone());
        assert(o0.map_values(|s: String| s@).len() == k);
        assert(out@.map_values(|s: String| s@) =~= ranked@.subrange(0, k + 1).map_values(|x: Scored| x.value@)) by {
            assert forall|j: int| 0 <= j < k implies #[trigger] out@[j]@ == ranked@[j].value@ by {
                assert(out@[j] == o0[j]);
                assert(o0.map_values(|s: String| s@)[j] == ranked@.subrange(0, k as int).map_values(|x: Scored| x.value@)[j]);
                assert(ranked@.subrange(0, k as int)[j] == ranked@[j]);
            }
        }
        k = k + 1;
    }
    assert(ranked@.subrange(0, ranked@.len() as int) =~= ranked@);
    out
}

/// The candidates with a positive score, best first; empty where nothing
/// is a plausible match.
pub fn closest_plausible(observed: &str, list: &Vec<String>) -> (r: Vec<String>)
    requires
        all_within(observed@, list@),
    ensures
        exists|ranked: Seq<Scored>|
            #[trigger] is_ranking(observed@, list@, ranked) && r@.map_values(|s: String| s@)
                == ranked.filter(|x: Scored| x.score.num > 0).map_values(|x: Scored| x.value@),
{
    let ranked = closest_with_score(observed, list);
    let mut out: Vec<String> = Vec::new();
    let mut k: usize = 0;
    while k < ranked.len()
        invariant
            0 <= k <= ranked.len(),
            out@.map_values(|s: String| s@) == ranked@.subrange(0, k as int).filter(|x: Scored| x.score.num > 0).map_values(|x: Scored| x.value@),
        decreases ranked.len() - k,
    {
        let ghost o0 = out@;
        let ghost pre = ranked@.subrange(0, k as int);
        assert(ranked@.subrange(0, k + 1) =~= pre.push(ranked@[k as int]));
        proof {
            pre.lemma_filter_push(ranked@[k as int], |x: Scored| x.score.num > 0);
        }
        if ranked[k].score.num > 0 {
            out.push(ranked[k].value.clone());
            assert(out@.map_values(|s: String| s@) =~= o0.map_values(|s: String| s@).push(ranked@[k as int].value@));
            assert(pre.filter(|x: Scored| x.score.num > 0).push(ranked@[k as int]).map_values(|x: Scored| x.value@) =~= pre.filter(|x: Scored| x.score.num > 0).map_values(|x: Scored| x.value@).push(ranked@[k as int].value@));
        }
        k = k + 1;
    }
    assert(ranked@.subrange(0, ranked@.len() as int) =~= ranked@);
    out
}

} // verus!
