//! Laws that relate building and resolving paradigms.
use vstd::prelude::*;
use crate::builder::{
    has_finite_mood, tagged, contraction_of, genders_inserted, has_case_tag, has_number_tag, participle_tags, tag_in,
    tenses_inserted, theme_of,
};
use crate::classify::ParsingComp;
use crate::grammar::{Contraction, Declension, Dialect, Dimension, Mood, PartOfSpeech, Theme};
use crate::lexicon::{
    is_finite, FormView, NounInflectionGenders, VerbInflectionTenses, WordAdjective, WordInflection,
};
use crate::paradigm::{
    effective_pos, pos_conflict, pos_from, word_error, word_inserted,
};
use crate::grid::{TableCell, TableCellType};
use crate::table::{governing_headers, headers_at, headers_in, row_headers};
use crate::resolve::{query_missing, resolve_genders, resolve_spec, resolve_tenses, ResolveError};

verus! {

/// The gender tag a declension stands for, if it sets one.
pub open spec fn gender_tags(q: Declension) -> Seq<ParsingComp> {
    match q.gender {
        Some(x) => seq![ParsingComp::Gender(x)],
        None => Seq::empty(),
    }
}

/// The tags a declension stands for: one per dimension it sets.
pub open spec fn declension_tags(q: Declension) -> Seq<ParsingComp> {
    gender_tags(q) + match q.number {
        Some(x) => seq![ParsingComp::Number(x)],
        None => Seq::empty(),
    } + match q.case {
        Some(x) => seq![ParsingComp::Case(x)],
        None => Seq::empty(),
    } + match q.tense {
        Some(x) => seq![ParsingComp::Tense(x)],
        None => Seq::empty(),
    } + match q.theme {
        Some(x) => seq![ParsingComp::Theme(x)],
        None => Seq::empty(),
    } + match q.contraction {
        Some(x) => seq![ParsingComp::Contraction(x)],
        None => Seq::empty(),
    } + match q.mood {
        Some(x) => seq![ParsingComp::Mood(x)],
        None => Seq::empty(),
    } + match q.voice {
        Some(x) => seq![ParsingComp::Voice(x)],
        None => Seq::empty(),
    } + match q.person {
        Some(x) => seq![ParsingComp::Person(x)],
        None => Seq::empty(),
    }
}

/// The declension sets the dimension that the tag `x` names to `x`'s value.
pub open spec fn declares(q: Declension, x: ParsingComp) -> bool {
    match x {
        ParsingComp::Gender(v) => q.gender == Some(v),
        ParsingComp::Number(v) => q.number == Some(v),
        ParsingComp::Case(v) => q.case == Some(v),
        ParsingComp::Tense(v) => q.tense == Some(v),
        ParsingComp::Theme(v) => q.theme == Some(v),
        ParsingComp::Contraction(v) => q.contraction == Some(v),
        ParsingComp::Mood(v) => q.mood == Some(v),
        ParsingComp::Voice(v) => q.voice == Some(v),
        ParsingComp::Person(v) => q.person == Some(v),
        _ => false,
    }
}

proof fn lemma_concat_contains(a: Seq<ParsingComp>, b: Seq<ParsingComp>, x: ParsingComp)
    ensures
        (a + b).contains(x) <==> (a.contains(x) || b.contains(x)),
{
    if a.contains(x) {
        let i = choose|i: int| 0 <= i < a.len() && a[i] == x;
        assert((a + b)[i] == x);
    }
    if b.contains(x) {
        let i = choose|i: int| 0 <= i < b.len() && b[i] == x;
        assert((a + b)[a.len() + i] == x);
    }
    if (a + b).contains(x) {
        let i = choose|i: int| 0 <= i < (a + b).len() && (a + b)[i] == x;
        if i < a.len() {
            assert(a[i] == x);
        } else {
            assert(b[i - a.len()] == x);
        }
    }
}

proof fn lemma_single_contains(v: ParsingComp, x: ParsingComp)
    ensures
        seq![v].contains(x) <==> v == x,
{
    if v == x {
        assert(seq![v][0] == x);
    }
}

/// A tag is among a declension's tags exactly when the declension declares it.
proof fn lemma_declension_tags(q: Declension, x: ParsingComp)
    ensures
        declension_tags(q).contains(x) <==> declares(q, x),
{
    let g = gender_tags(q);
    let n: Seq<ParsingComp> = match q.number {
        Some(v) => seq![ParsingComp::Number(v)],
        None => Seq::empty(),
    };
    let c: Seq<ParsingComp> = match q.case {
        Some(v) => seq![ParsingComp::Case(v)],
        None => Seq::empty(),
    };
    let t: Seq<ParsingComp> = match q.tense {
        Some(v) => seq![ParsingComp::Tense(v)],
        None => Seq::empty(),
    };
    let th: Seq<ParsingComp> = match q.theme {
        Some(v) => seq![ParsingComp::Theme(v)],
        None => Seq::empty(),
    };
    let co: Seq<ParsingComp> = match q.contraction {
        Some(v) => seq![ParsingComp::Contraction(v)],
        None => Seq::empty(),
    };
    let m: Seq<ParsingComp> = match q.mood {
        Some(v) => seq![ParsingComp::Mood(v)],
        None => Seq::empty(),
    };
    let vo: Seq<ParsingComp> = match q.voice {
        Some(v) => seq![ParsingComp::Voice(v)],
        None => Seq::empty(),
    };
    let p: Seq<ParsingComp> = match q.person {
        Some(v) => seq![ParsingComp::Person(v)],
        None => Seq::empty(),
    };
    lemma_concat_contains(g, n, x);
    lemma_concat_contains(g + n, c, x);
    lemma_concat_contains(g + n + c, t, x);
    lemma_concat_contains(g + n + c + t, th, x);
    lemma_concat_contains(g + n + c + t + th, co, x);
    lemma_concat_contains(g + n + c + t + th + co, m, x);
    lemma_concat_contains(g + n + c + t + th + co + m, vo, x);
    lemma_concat_contains(g + n + c + t + th + co + m + vo, p, x);
    assert(declension_tags(q) == g + n + c + t + th + co + m + vo + p);
    if let Some(v) = q.gender {
        lemma_single_contains(ParsingComp::Gender(v), x);
    }
    if let Some(v) = q.number {
        lemma_single_contains(ParsingComp::Number(v), x);
    }
    if let Some(v) = q.case {
        lemma_single_contains(ParsingComp::Case(v), x);
    }
    if let Some(v) = q.tense {
        lemma_single_contains(ParsingComp::Tense(v), x);
    }
    if let Some(v) = q.theme {
        lemma_single_contains(ParsingComp::Theme(v), x);
    }
    if let Some(v) = q.contraction {
        lemma_single_contains(ParsingComp::Contraction(v), x);
    }
    if let Some(v) = q.mood {
        lemma_single_contains(ParsingComp::Mood(v), x);
    }
    if let Some(v) = q.voice {
        lemma_single_contains(ParsingComp::Voice(v), x);
    }
    if let Some(v) = q.person {
        lemma_single_contains(ParsingComp::Person(v), x);
    }
}

proof fn lemma_pos_from_none(tags: Seq<ParsingComp>, i: int)
    requires
        forall|k: int| 0 <= k < tags.len() ==> !((#[trigger] tags[k]) is PartOfSpeech),
    ensures
        pos_from(tags, i) is None,
    decreases tags.len() - i,
{
    if 0 <= i < tags.len() {
        lemma_pos_from_none(tags, i + 1);
    }
}

proof fn lemma_tagged(tags: Seq<ParsingComp>, x: ParsingComp, d: Dimension)
    requires
        tags.contains(x),
        match x {
            ParsingComp::Gender(_) => d == Dimension::Gender,
            ParsingComp::Number(_) => d == Dimension::Number,
            ParsingComp::Case(_) => d == Dimension::Case,
            ParsingComp::Tense(_) => d == Dimension::Tense,
            ParsingComp::Mood(_) => d == Dimension::Mood,
            ParsingComp::Voice(_) => d == Dimension::Voice,
            ParsingComp::Person(_) => d == Dimension::Person,
            _ => false,
        },
    ensures
        tagged(tags, d),
{
    let i = choose|i: int| 0 <= i < tags.len() && tags[i] == x;
    assert(tags[i] == x);
}

proof fn lemma_noun_round_trip(
    g: NounInflectionGenders,
    q: Declension,
    tags: Seq<ParsingComp>,
    fs: Seq<FormView>,
)
    requires
        q.gender is Some && q.number is Some && q.case is Some,
        forall|x: ParsingComp| #[trigger] tags.contains(x) <==> declares(q, x),
        genders_inserted(NounInflectionGenders::spec_empty(), g, tags, fs),
    ensures
        resolve_genders(g, q) == Ok::<Seq<FormView>, ResolveError>(fs),
{
    assert(tags.contains(ParsingComp::Gender(q.gender->0)));
    assert(tags.contains(ParsingComp::Number(q.number->0)));
    assert(tags.contains(ParsingComp::Case(q.case->0)));
    assert(Seq::<FormView>::empty() + fs =~= fs);
}

proof fn lemma_verb_round_trip(
    t: VerbInflectionTenses,
    q: Declension,
    tags: Seq<ParsingComp>,
    fs: Seq<FormView>,
)
    requires
        q.part_of_speech == PartOfSpeech::Verb,
        query_missing(q) is None,
        forall|x: ParsingComp| #[trigger] tags.contains(x) <==> declares(q, x),
        tenses_inserted(VerbInflectionTenses::spec_empty(), t, tags, fs, fs),
    ensures
        resolve_tenses(t, q) == Ok::<Seq<FormView>, ResolveError>(fs),
{
    assert(tags.contains(ParsingComp::Tense(q.tense->0)));
    assert(tags.contains(ParsingComp::Mood(q.mood->0)));
    assert(tags.contains(ParsingComp::Voice(q.voice->0)));
    assert(theme_of(tags) == q.theme.unwrap_or(Theme::Thematic)) by {
        if q.theme == Some(Theme::Athematic) {
            assert(tags.contains(ParsingComp::Theme(Theme::Athematic)));
        }
    }
    assert(contraction_of(tags) == q.contraction.unwrap_or(Contraction::Contracted)) by {
        if q.contraction == Some(Contraction::Uncontracted) {
            assert(tags.contains(ParsingComp::Contraction(Contraction::Uncontracted)));
        }
    }
    assert(Seq::<FormView>::empty() + fs =~= fs);
    let m = q.mood->0;
    if m == Mood::Participle {
        assert(tags.contains(ParsingComp::Number(q.number->0)));
        assert(tags.contains(ParsingComp::Case(q.case->0)));
        let i = choose|i: int| 0 <= i < tags.len() && tags[i] == ParsingComp::Number(q.number->0);
        assert(has_number_tag(tags)) by {
            assert(tags[i] is Number);
        }
        let j = choose|j: int| 0 <= j < tags.len() && tags[j] == ParsingComp::Case(q.case->0);
        assert(has_case_tag(tags)) by {
            assert(tags[j] is Case);
        }
        assert(participle_tags(tags) =~= tags);
        assert(tags.contains(ParsingComp::Gender(q.gender->0)));
    } else if m != Mood::Infinitive {
        assert(tags.contains(ParsingComp::Number(q.number->0)));
        assert(tags.contains(ParsingComp::Person(q.person->0)));
    }
}

proof fn lemma_no_pos(q: Declension, tags: Seq<ParsingComp>)
    requires
        forall|x: ParsingComp| #[trigger] tags.contains(x) <==> declares(q, x),
    ensures
        pos_from(tags, 0) is None,
        !pos_conflict(tags),
{
    assert forall|k: int| 0 <= k < tags.len() implies !((#[trigger] tags[k]) is PartOfSpeech) by {
        assert(tags.contains(tags[k]));
    }
    lemma_pos_from_none(tags, 0);
}

#[verifier::rlimit(50)]
proof fn lemma_tags_accepted(q: Declension, tags: Seq<ParsingComp>)
    requires
        q.part_of_speech != PartOfSpeech::Interjection,
        query_missing(q) is None,
        tags == declension_tags(q),
        forall|x: ParsingComp| #[trigger] tags.contains(x) <==> declares(q, x),
    ensures
        effective_pos(q.part_of_speech, tags) == q.part_of_speech,
        word_error(q.part_of_speech, tags) is None,
{
    lemma_no_pos(q, tags);
    if let Some(v) = q.gender {
        lemma_tagged(tags, ParsingComp::Gender(v), Dimension::Gender);
    }
    if let Some(v) = q.number {
        lemma_tagged(tags, ParsingComp::Number(v), Dimension::Number);
    }
    if let Some(v) = q.case {
        lemma_tagged(tags, ParsingComp::Case(v), Dimension::Case);
    }
    if let Some(v) = q.tense {
        lemma_tagged(tags, ParsingComp::Tense(v), Dimension::Tense);
    }
    if let Some(v) = q.voice {
        lemma_tagged(tags, ParsingComp::Voice(v), Dimension::Voice);
    }
    if let Some(v) = q.person {
        lemma_tagged(tags, ParsingComp::Person(v), Dimension::Person);
    }
    if let Some(v) = q.mood {
        lemma_tagged(tags, ParsingComp::Mood(v), Dimension::Mood);
        if is_finite(v) {
            assert(tags.contains(ParsingComp::Mood(v)));
            let i = choose|i: int| 0 <= i < tags.len() && tags[i] == ParsingComp::Mood(v);
            assert(has_finite_mood(tags)) by {
                assert(tags[i] is Mood && is_finite(tags[i]->Mood_0));
            }
        } else {
            assert(!has_finite_mood(tags)) by {
                if has_finite_mood(tags) {
                    let i = choose|i: int|
                        0 <= i < tags.len() && (#[trigger] tags[i]) is Mood && is_finite(tags[i]->Mood_0);
                    assert(tags.contains(tags[i]));
                }
            }
        }
        if v != Mood::Participle {
            assert(!tag_in(tags, ParsingComp::Mood(Mood::Participle)));
        }
    }
}

/// Inserting the forms a query resolves to, under the tags the query
/// declares, into an empty paradigm is accepted, and the query resolves in
/// the new paradigm to the same forms.
pub proof fn lemma_round_trip(
    t: WordInflection,
    q: Declension,
    dialects: Vec<Dialect>,
    fresh: WordInflection,
)
    requires
        resolve_spec(t, q) is Ok,
        word_inserted(
            WordInflection::spec_empty(dialects),
            fresh,
            q.part_of_speech,
            declension_tags(q),
            resolve_spec(t, q)->Ok_0,
            resolve_spec(t, q)->Ok_0,
        ),
    ensures
        effective_pos(q.part_of_speech, declension_tags(q)) == q.part_of_speech,
        word_error(q.part_of_speech, declension_tags(q)) is None,
        resolve_spec(fresh, q) == resolve_spec(t, q),
{
    let tags = declension_tags(q);
    let fs = resolve_spec(t, q)->Ok_0;
    assert forall|x: ParsingComp| #[trigger] tags.contains(x) <==> declares(q, x) by {
        lemma_declension_tags(q, x);
    }
    lemma_tags_accepted(q, tags);
    assert(Seq::<FormView>::empty() + fs =~= fs);
    match q.part_of_speech {
        PartOfSpeech::Noun(_) => lemma_noun_round_trip(fresh.noun->0, q, tags, fs),
        PartOfSpeech::Article(_) => lemma_noun_round_trip(fresh.article->0, q, tags, fs),
        PartOfSpeech::Pronoun(_) => lemma_noun_round_trip(fresh.pronoun->0, q, tags, fs),
        PartOfSpeech::Quantifier => lemma_noun_round_trip(fresh.quantifier->0, q, tags, fs),
        PartOfSpeech::Numeral(_) => lemma_noun_round_trip(fresh.numeral->0, q, tags, fs),
        PartOfSpeech::Adjective(d) => {
            assert(WordAdjective::spec_empty().branch(d) is None);
            lemma_noun_round_trip(fresh.adjective->0.branch(d)->0, q, tags, fs);
        },
        PartOfSpeech::Verb => lemma_verb_round_trip(fresh.verb->0, q, tags, fs),
        _ => {},
    }
}

/// A noun query that sets gender and number but not case fails, whatever
/// the paradigm, for want of the case.
pub proof fn lemma_noun_query_needs_case(t: WordInflection, q: Declension)
    requires
        q.part_of_speech is Noun,
        q.gender is Some,
        q.number is Some,
        q.case is None,
    ensures
        resolve_spec(t, q) == Err::<Seq<FormView>, ResolveError>(
            ResolveError::MissingRequiredDimension(Dimension::Case),
        ),
{
}

/// A complete noun query for a gender the noun paradigm has no branch for
/// fails as not attested at the gender, not as a malformed query.
pub proof fn lemma_unattested_gender(t: WordInflection, q: Declension)
    requires
        q.part_of_speech is Noun,
        q.gender is Some,
        q.number is Some,
        q.case is Some,
        t.noun is Some,
        t.noun->0.branch(q.gender->0) is None,
    ensures
        resolve_spec(t, q) == Err::<Seq<FormView>, ResolveError>(
            ResolveError::FormNotAttested(Dimension::Gender),
        ),
{
}

proof fn lemma_headers_in_contains(cells: Seq<TableCell>, n: int, j: int)
    requires
        0 <= j < n <= cells.len(),
        cells[j].cell_type == TableCellType::Header,
    ensures
        headers_in(cells, n, cells[j].x as int, cells[j].y as int).contains(cells[j]),
    decreases n,
{
    let h = headers_in(cells, n, cells[j].x as int, cells[j].y as int);
    if j == n - 1 {
        assert(h[h.len() - 1] == cells[j]);
    } else {
        lemma_headers_in_contains(cells, n - 1, j);
        let prev = headers_in(cells, n - 1, cells[j].x as int, cells[j].y as int);
        let i = choose|i: int| 0 <= i < prev.len() && prev[i] == cells[j];
        assert(h[i] == cells[j]);
    }
}

proof fn lemma_row_headers_contains(cells: Seq<TableCell>, x: int, j: int)
    requires
        0 <= j < cells.len(),
        cells[j].cell_type == TableCellType::Header,
        cells[j].x < x,
    ensures
        row_headers(cells, x, cells[j].y as int).contains(cells[j]),
    decreases x,
{
    let y = cells[j].y as int;
    let left = row_headers(cells, x - 1, y);
    let here = headers_at(cells, x - 1, y);
    if cells[j].x == x - 1 {
        lemma_headers_in_contains(cells, cells.len() as int, j);
        let i = choose|i: int| 0 <= i < here.len() && here[i] == cells[j];
        assert((left + here)[left.len() + i] == cells[j]);
    } else {
        lemma_row_headers_contains(cells, x - 1, j);
        let i = choose|i: int| 0 <= i < left.len() && left[i] == cells[j];
        assert((left + here)[i] == cells[j]);
    }
}

/// A header that claims a coordinate in a cell's row, left of the cell,
/// governs the cell, whichever row the header's source cell started in.
pub proof fn lemma_row_header_governs(cells: Seq<TableCell>, c: TableCell, j: int)
    requires
        0 <= j < cells.len(),
        cells[j].cell_type == TableCellType::Header,
        cells[j].y == c.y,
        cells[j].x < c.x,
    ensures
        governing_headers(cells, c).contains(cells[j]),
{
    lemma_row_headers_contains(cells, c.x as int, j);
    let rh = row_headers(cells, c.x as int, c.y as int);
    let i = choose|i: int| 0 <= i < rh.len() && rh[i] == cells[j];
    let ch = crate::table::column_headers(cells, c.x as int, c.y as int, false);
    assert((rh + ch)[i] == cells[j]);
}

} // verus!
