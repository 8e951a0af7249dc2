use greek_lexicon::builder::fill_themes;
use greek_lexicon::classify::{classify_header, classify_title, ParsingComp};
use greek_lexicon::grammar::{
    Adjective, Case, Declension, Dialect, Dimension, Gender, Mood, Noun, Number, PartOfSpeech,
    Person, Tense, Voice,
};
use greek_lexicon::grid::{build_grid, GridError, RawCell, Table, TableCellType};
use greek_lexicon::lexicon::{VerbInflectionThemes, WordInflection};
use greek_lexicon::paradigm::{
    get_words_dialects, get_words_tenses, insert_word, parsed_words_to_inflection, BuildError,
};
use greek_lexicon::resolve::ResolveError;
use greek_lexicon::table::{parse_table, ParsedWord};
use greek_lexicon::text::parse_positive;

fn th(text: &str) -> RawCell {
    RawCell {
        cell_type: TableCellType::Header,
        content: text.to_string(),
        rowspan: None,
        colspan: None,
    }
}

fn td(text: &str) -> RawCell {
    RawCell {
        cell_type: TableCellType::Data,
        content: text.to_string(),
        rowspan: None,
        colspan: None,
    }
}

fn spanned(mut c: RawCell, rowspan: Option<&str>, colspan: Option<&str>) -> RawCell {
    c.rowspan = rowspan.map(|s| s.to_string());
    c.colspan = colspan.map(|s| s.to_string());
    c
}

fn word(text: &str, tags: Vec<ParsingComp>) -> ParsedWord {
    ParsedWord { text: text.to_string(), parsing: tags }
}

fn verb_query(tense: Tense, mood: Mood, voice: Voice, number: Number, person: Person) -> Declension {
    Declension {
        tense: Some(tense),
        mood: Some(mood),
        voice: Some(voice),
        number: Some(number),
        person: Some(person),
        ..Declension::partial_default(PartOfSpeech::Verb)
    }
}

fn noun_query(gender: Gender, number: Number, case: Option<Case>) -> Declension {
    Declension {
        gender: Some(gender),
        number: Some(number),
        case,
        ..Declension::partial_default(PartOfSpeech::Noun(Noun::Common))
    }
}

fn present_table() -> Table {
    let rows = vec![
        vec![th(""), th("singular"), th("plural")],
        vec![th("1st"), td("λέγω"), td("λέγομεν")],
        vec![th("2nd"), td("λέγεις"), td("λέγετε")],
        vec![th("3rd"), td("λέγει"), td("λέγουσι(ν)")],
    ];
    build_grid("present: active indicative".to_string(), &rows).unwrap()
}

#[test]
fn example_table_resolves_first_singular() {
    let table = present_table();
    let words = parse_table(&table);
    let (infl, errors) = parsed_words_to_inflection(PartOfSpeech::Verb, &vec![], &words).unwrap();
    assert!(errors.is_empty());
    let q = verb_query(Tense::Present, Mood::Indicative, Voice::Active, Number::Singular, Person::First);
    assert_eq!(infl.find_inflection(&q).unwrap(), vec!["λέγω".to_string()]);
    let q3 = verb_query(Tense::Present, Mood::Indicative, Voice::Active, Number::Plural, Person::Third);
    assert_eq!(
        infl.find_inflection(&q3).unwrap(),
        vec!["λέγουσι".to_string(), "λέγουσιν".to_string()]
    );
}

#[test]
fn rowspan_header_governs_both_rows() {
    let rows = vec![
        vec![spanned(th("masculine"), Some("2"), None), th("singular"), td("λόγος")],
        vec![th("plural"), td("λόγοι")],
    ];
    let table = build_grid(String::new(), &rows).unwrap();
    let words = parse_table(&table);
    let second = words.iter().find(|w| w.text == "λόγοι").unwrap();
    assert!(second.parsing.contains(&ParsingComp::Gender(Gender::Masculine)));
    assert!(second.parsing.contains(&ParsingComp::Number(Number::Plural)));
    let first = words.iter().find(|w| w.text == "λόγος").unwrap();
    assert!(first.parsing.contains(&ParsingComp::Gender(Gender::Masculine)));
}

#[test]
fn grid_never_claims_a_coordinate_twice() {
    let rows = vec![
        vec![th("a"), spanned(th("b"), Some("2"), None)],
        vec![spanned(td("c"), None, Some("2")), td("d")],
    ];
    let table = build_grid(String::new(), &rows).unwrap();
    for (i, a) in table.cells.iter().enumerate() {
        for b in table.cells.iter().skip(i + 1) {
            assert!(!(a.x == b.x && a.y == b.y));
        }
    }
    let d = table.cells.iter().find(|c| c.content == "d").unwrap();
    assert_eq!((d.x, d.y), (2, 1));
    assert_eq!(table.cells.len(), 5);
}

#[test]
fn bad_span_is_a_format_error() {
    let rows = vec![vec![spanned(td("x"), None, Some("two"))]];
    assert!(matches!(build_grid(String::new(), &rows), Err(GridError::Format)));
    let rows = vec![vec![spanned(td("x"), Some("0"), None)]];
    assert!(matches!(build_grid(String::new(), &rows), Err(GridError::Format)));
}

#[test]
fn positive_integers_parse() {
    assert_eq!(parse_positive("12"), Some(12));
    assert_eq!(parse_positive("0"), None);
    assert_eq!(parse_positive(""), None);
    assert_eq!(parse_positive("+3"), None);
    assert_eq!(parse_positive("99999999999999999999999"), None);
}

#[test]
fn headers_classify() {
    assert_eq!(
        classify_header("middle/passive"),
        vec![ParsingComp::Voice(Voice::Middle), ParsingComp::Voice(Voice::Passive)]
    );
    assert_eq!(classify_header("1st"), vec![ParsingComp::Person(Person::First)]);
    assert_eq!(classify_header("nominative singular").len(), 2);
    assert!(classify_header("unknown").is_empty());
}

#[test]
fn titles_classify() {
    let tags = classify_title("present: active indicative");
    assert!(tags.contains(&ParsingComp::Tense(Tense::Present)));
    assert!(tags.contains(&ParsingComp::Voice(Voice::Active)));
    assert!(tags.contains(&ParsingComp::Mood(Mood::Indicative)));
    let tags = classify_title("declension of λόγος (attic, contracted)");
    assert!(tags.contains(&ParsingComp::Dialect(Dialect::Attic)));
    let tags = classify_title("future: λέξω (uncontracted)");
    assert!(tags.contains(&ParsingComp::Tense(Tense::Future)));
    assert!(tags.contains(&ParsingComp::Contraction(greek_lexicon::grammar::Contraction::Uncontracted)));
}

#[test]
fn notes_and_empty_cells_are_dropped() {
    let rows = vec![
        vec![th("singular"), td("λόγος")],
        vec![th("Notes:"), td("a remark")],
        vec![th("plural"), td("—")],
        vec![th("dual"), td("")],
    ];
    let table = build_grid(String::new(), &rows).unwrap();
    let words = parse_table(&table);
    assert_eq!(words.len(), 1);
    assert_eq!(words[0].text, "λόγος");
}

#[test]
fn missing_case_query_fails() {
    let mut infl = WordInflection::empty(vec![]);
    let w = word(
        "λόγος",
        vec![
            ParsingComp::Gender(Gender::Masculine),
            ParsingComp::Number(Number::Singular),
            ParsingComp::Case(Case::Nominative),
        ],
    );
    insert_word(&mut infl, PartOfSpeech::Noun(Noun::Common), &w).unwrap();
    let q = noun_query(Gender::Masculine, Number::Singular, None);
    assert_eq!(
        infl.resolve(&q).unwrap_err(),
        ResolveError::MissingRequiredDimension(Dimension::Case)
    );
}

#[test]
fn unattested_gender_fails() {
    let mut infl = WordInflection::empty(vec![]);
    let w = word(
        "λόγος",
        vec![
            ParsingComp::Gender(Gender::Masculine),
            ParsingComp::Number(Number::Singular),
            ParsingComp::Case(Case::Nominative),
        ],
    );
    insert_word(&mut infl, PartOfSpeech::Noun(Noun::Common), &w).unwrap();
    let q = noun_query(Gender::Feminine, Number::Singular, Some(Case::Nominative));
    assert_eq!(infl.resolve(&q).unwrap_err(), ResolveError::FormNotAttested(Dimension::Gender));
    let q = noun_query(Gender::Masculine, Number::Singular, Some(Case::Nominative));
    assert_eq!(infl.find_inflection(&q).unwrap(), vec!["λόγος".to_string()]);
}

#[test]
fn resolved_forms_round_trip() {
    let mut infl = WordInflection::empty(vec![]);
    let w = word(
        "λόγοιν\nλόγοις",
        vec![
            ParsingComp::Gender(Gender::Masculine),
            ParsingComp::Number(Number::Dual),
            ParsingComp::Case(Case::Dative),
        ],
    );
    insert_word(&mut infl, PartOfSpeech::Noun(Noun::Common), &w).unwrap();
    let q = noun_query(Gender::Masculine, Number::Dual, Some(Case::Dative));
    let forms = infl.find_inflection(&q).unwrap();
    assert_eq!(forms, vec!["λόγοιν".to_string(), "λόγοις".to_string()]);
    let mut fresh = WordInflection::empty(vec![]);
    let again = word(
        &forms.join("\n"),
        vec![
            ParsingComp::Gender(Gender::Masculine),
            ParsingComp::Number(Number::Dual),
            ParsingComp::Case(Case::Dative),
        ],
    );
    insert_word(&mut fresh, PartOfSpeech::Noun(Noun::Common), &again).unwrap();
    assert_eq!(fresh.find_inflection(&q).unwrap(), forms);
}

#[test]
fn conflicting_parts_of_speech_are_set_aside() {
    let mut infl = WordInflection::empty(vec![]);
    let w = word(
        "x",
        vec![
            ParsingComp::PartOfSpeech(PartOfSpeech::Adverb),
            ParsingComp::PartOfSpeech(PartOfSpeech::Adjective(Adjective::Comparative)),
        ],
    );
    assert_eq!(
        insert_word(&mut infl, PartOfSpeech::Adjective(Adjective::Positive), &w),
        Err(BuildError::ClassificationConflict)
    );
    assert!(infl.adjective.is_none() && infl.adverb.is_none());
}

#[test]
fn a_word_without_case_is_set_aside_and_others_go_in() {
    let words = vec![
        word("λόγος", vec![ParsingComp::Number(Number::Singular), ParsingComp::Case(Case::Nominative)]),
        word("λόγου", vec![ParsingComp::Number(Number::Singular)]),
    ];
    let base = vec![ParsingComp::Gender(Gender::Masculine)];
    let (infl, errors) =
        parsed_words_to_inflection(PartOfSpeech::Noun(Noun::Common), &base, &words).unwrap();
    assert_eq!(errors, vec![(1, BuildError::MissingDimension(Dimension::Case))]);
    let q = noun_query(Gender::Masculine, Number::Singular, Some(Case::Nominative));
    assert_eq!(infl.find_inflection(&q).unwrap(), vec!["λόγος".to_string()]);
}

#[test]
fn interjections_have_no_paradigm() {
    assert!(matches!(
        parsed_words_to_inflection(PartOfSpeech::Interjection, &vec![], &vec![]),
        Err(BuildError::UnsupportedPartOfSpeech(PartOfSpeech::Interjection))
    ));
}

#[test]
fn comparative_rows_go_to_their_degree() {
    let words = vec![word(
        "σοφώτερος",
        vec![
            ParsingComp::PartOfSpeech(PartOfSpeech::Adjective(Adjective::Comparative)),
            ParsingComp::Gender(Gender::Masculine),
            ParsingComp::Number(Number::Singular),
            ParsingComp::Case(Case::Nominative),
        ],
    )];
    let (infl, errors) =
        parsed_words_to_inflection(PartOfSpeech::Adjective(Adjective::Positive), &vec![], &words)
            .unwrap();
    assert!(errors.is_empty());
    let q = Declension {
        gender: Some(Gender::Masculine),
        number: Some(Number::Singular),
        case: Some(Case::Nominative),
        ..Declension::partial_default(PartOfSpeech::Adjective(Adjective::Comparative))
    };
    assert_eq!(infl.find_inflection(&q).unwrap(), vec!["σοφώτερος".to_string()]);
    let q = Declension {
        part_of_speech: PartOfSpeech::Adjective(Adjective::Positive),
        ..q
    };
    assert_eq!(infl.resolve(&q).unwrap_err(), ResolveError::FormNotAttested(Dimension::Degree));
}

#[test]
fn participles_default_to_nominative_singular() {
    let mut themes = VerbInflectionThemes::empty();
    let w = word(
        "λέγων",
        vec![
            ParsingComp::Tense(Tense::Present),
            ParsingComp::Mood(Mood::Participle),
            ParsingComp::Voice(Voice::Active),
            ParsingComp::Gender(Gender::Masculine),
        ],
    );
    fill_themes(&w, &mut themes);
    let moods = themes.thematic.unwrap().contracted.unwrap();
    let genders = moods.participle.unwrap().active.unwrap();
    let cases = genders.masculine.unwrap().singular.unwrap();
    assert_eq!(cases.nominative.unwrap()[0].contracted.as_deref(), Some("λέγων"));
}

#[test]
fn infinitives_skip_number_and_person() {
    let words = vec![word(
        "λέγειν",
        vec![
            ParsingComp::Tense(Tense::Present),
            ParsingComp::Mood(Mood::Infinitive),
            ParsingComp::Voice(Voice::Active),
        ],
    )];
    let (infl, errors) = parsed_words_to_inflection(PartOfSpeech::Verb, &vec![], &words).unwrap();
    assert!(errors.is_empty());
    let q = Declension {
        tense: Some(Tense::Present),
        mood: Some(Mood::Infinitive),
        voice: Some(Voice::Active),
        ..Declension::partial_default(PartOfSpeech::Verb)
    };
    assert_eq!(infl.find_inflection(&q).unwrap(), vec!["λέγειν".to_string()]);
}

#[test]
fn dialects_and_tenses_are_collected() {
    let words = vec![
        word("a", vec![ParsingComp::Dialect(Dialect::Koine), ParsingComp::Tense(Tense::Aorist)]),
        word("b", vec![ParsingComp::Dialect(Dialect::Attic), ParsingComp::Tense(Tense::Aorist)]),
        word("c", vec![ParsingComp::Dialect(Dialect::Koine), ParsingComp::Tense(Tense::Present)]),
    ];
    assert_eq!(get_words_dialects(&words), vec![Dialect::Attic, Dialect::Koine]);
    assert_eq!(get_words_tenses(&words), vec![Tense::Aorist, Tense::Present]);
}

#[test]
fn huge_spans_are_too_large() {
    let rows = vec![vec![spanned(td("x"), None, Some("18446744073709551615"))]];
    assert!(matches!(build_grid(String::new(), &rows), Err(GridError::TooLarge)));
    let rows = vec![vec![spanned(td("x"), None, Some("18446744073709551616"))]];
    assert!(matches!(build_grid(String::new(), &rows), Err(GridError::Format)));
}

#[test]
fn empty_tables_lay_out_empty() {
    let table = build_grid("t".to_string(), &vec![]).unwrap();
    assert!(table.cells.is_empty());
    assert!(parse_table(&table).is_empty());
    let table = build_grid("t".to_string(), &vec![vec![], vec![td("a")]]).unwrap();
    assert_eq!((table.cells[0].x, table.cells[0].y), (0, 1));
}

#[test]
fn column_headers_stop_at_a_gap() {
    let rows = vec![
        vec![th("singular")],
        vec![td("x")],
        vec![th("dual")],
        vec![td("λόγω")],
    ];
    let table = build_grid(String::new(), &rows).unwrap();
    let words = parse_table(&table);
    let w = words.iter().find(|w| w.text == "λόγω").unwrap();
    assert_eq!(w.parsing, vec![ParsingComp::Number(Number::Dual)]);
}

#[test]
fn tag_kinds() {
    assert!(ParsingComp::Gender(Gender::Neuter).is_gender());
    assert!(!ParsingComp::Gender(Gender::Neuter).is_case());
    assert!(ParsingComp::Case(Case::Dative).is_case());
    assert!(ParsingComp::Number(Number::Dual).is_number());
    assert!(!ParsingComp::Tense(Tense::Future).is_number());
}

#[test]
fn incomplete_words_leave_the_tree_alone() {
    let mut genders = greek_lexicon::lexicon::NounInflectionGenders::empty();
    let w = word("λόγος", vec![ParsingComp::Gender(Gender::Masculine), ParsingComp::Number(Number::Singular)]);
    greek_lexicon::builder::fill_genders(&w, &mut genders);
    assert!(genders.masculine.is_none());
    assert_eq!(greek_lexicon::grammar::gender_from_mark("f"), Some(Gender::Feminine));
    assert_eq!(greek_lexicon::grammar::gender_from_mark("x"), None);
}
