use greek_lexicon::grammar::{Case, Declension, Gender, Noun, Number, PartOfSpeech};
use greek_lexicon::grid::{GridError, RawCell, TableCell, TableCellType};
use greek_lexicon::lexicon::{NounInflectionGenders, WordInflection};
use greek_lexicon::paradigm::BuildError;
use greek_lexicon::site::{
    cells_insert_header, cells_to_word_inflection, extract_noun_inflection, place_site_rows,
};

fn cell(kind: TableCellType, text: &str, rowspan: Option<&str>, colspan: Option<&str>) -> RawCell {
    RawCell {
        cell_type: kind,
        content: text.to_string(),
        rowspan: rowspan.map(|s| s.to_string()),
        colspan: colspan.map(|s| s.to_string()),
    }
}

fn strings(parts: &[&str]) -> Vec<String> {
    parts.iter().map(|s| s.to_string()).collect()
}

#[test]
fn site_coordinates_shift_one_by_one() {
    let rows = vec![
        vec![cell(TableCellType::Header, "a", Some("2"), None), cell(TableCellType::Header, "b", None, None)],
        vec![cell(TableCellType::Data, "c", None, Some("2"))],
    ];
    let cells = place_site_rows(&rows).unwrap();
    let coords: Vec<(usize, usize, String)> = cells.iter().map(|c| (c.x, c.y, c.content.clone())).collect();
    assert_eq!(
        coords,
        vec![
            (0, 0, "a".to_string()),
            (0, 1, "a".to_string()),
            (1, 0, "b".to_string()),
            (1, 1, "c".to_string()),
            (2, 1, "c".to_string()),
        ]
    );
    let bad = vec![vec![cell(TableCellType::Data, "c", Some("x"), None)]];
    assert!(matches!(place_site_rows(&bad), Err(GridError::Format)));
}

#[test]
fn header_rows_go_on_top() {
    let mut cells = vec![TableCell {
        cell_type: TableCellType::Data,
        content: "x".to_string(),
        x: 2,
        y: 0,
    }];
    cells_insert_header(&mut cells, "noun");
    assert_eq!(cells.len(), 4);
    assert_eq!((cells[0].x, cells[0].y), (2, 1));
    assert_eq!((cells[3].x, cells[3].y, cells[3].content.as_str()), (2, 0, "noun"));
}

#[test]
fn site_noun_cells_fill_the_tree() {
    let rows = vec![
        vec![cell(TableCellType::Header, "Noun", None, None)],
        vec![cell(TableCellType::Data, " τιμή ", None, None), cell(TableCellType::Header, "nom", None, None)],
        vec![cell(TableCellType::Data, "τιμῆς", None, None), cell(TableCellType::Header, "gen", None, None)],
    ];
    let mut cells = place_site_rows(&rows).unwrap();
    cells_insert_header(&mut cells, "sg");
    cells_insert_header(&mut cells, "feminine");
    cells_insert_header(&mut cells, "contracted");
    let (infl, errors) = cells_to_word_inflection(WordInflection::empty(vec![]), &cells);
    assert!(errors.is_empty());
    let q = Declension {
        gender: Some(Gender::Feminine),
        number: Some(Number::Singular),
        case: Some(Case::Genitive),
        ..Declension::partial_default(PartOfSpeech::Noun(Noun::Common))
    };
    assert_eq!(infl.find_inflection(&q).unwrap(), vec!["τιμῆς".to_string()]);
    let q = Declension { case: Some(Case::Nominative), ..q };
    assert_eq!(infl.find_inflection(&q).unwrap(), vec!["τιμή".to_string()]);
}

#[test]
fn site_cells_without_part_of_speech_are_set_aside() {
    let rows = vec![vec![cell(TableCellType::Header, "sg", None, None), cell(TableCellType::Data, "x", None, None)]];
    let cells = place_site_rows(&rows).unwrap();
    let (_, errors) = cells_to_word_inflection(WordInflection::empty(vec![]), &cells);
    assert_eq!(errors.len(), 1);
}

#[test]
fn site_noun_needs_every_dimension() {
    let mut noun = NounInflectionGenders::empty();
    let r = extract_noun_inflection(&mut noun, &strings(&["noun", "feminine", "sg"]), "τιμή");
    assert_eq!(r, Err(BuildError::MissingDimension(greek_lexicon::grammar::Dimension::Case)));
    assert!(noun.feminine.is_none());
    let r = extract_noun_inflection(&mut noun, &strings(&["noun", "feminine", "sg", "nom"]), "τιμή");
    assert_eq!(r, Err(BuildError::MissingDimension(greek_lexicon::grammar::Dimension::Contraction)));
    assert!(noun.feminine.is_none());
    extract_noun_inflection(&mut noun, &strings(&["noun", "feminine", "sg", "nom", "contracted"]), "τιμή").unwrap();
    let leaf = noun.feminine.unwrap().singular.unwrap().nominative.unwrap();
    assert_eq!(leaf[0].contracted.as_deref(), Some("τιμή"));
}

#[test]
fn uncontracted_rows_give_morphemes() {
    let mut noun = NounInflectionGenders::empty();
    extract_noun_inflection(&mut noun, &strings(&["noun", "masculine", "sg", "nom", "uncontracted"]), "λογ·ος").unwrap();
    extract_noun_inflection(&mut noun, &strings(&["noun", "masculine", "sg", "nom", "contracted"]), "λόγος").unwrap();
    assert!(noun.feminine.is_none() && noun.neuter.is_none());
    let leaf = noun.masculine.unwrap().singular.unwrap().nominative.unwrap();
    assert_eq!(leaf.len(), 1);
    assert_eq!(leaf[0].uncontracted, Some(strings(&["λογ", "ος"])));
    assert_eq!(leaf[0].contracted.as_deref(), Some("λόγος"));
}

#[test]
fn site_verb_rows_follow_their_path() {
    let mut verb = greek_lexicon::lexicon::VerbInflectionTenses::empty();
    let h = strings(&["verb", "present", "indicative", "act", "sg", "1st", "inflection"]);
    greek_lexicon::site::extract_verb_inflection(&mut verb, &h, "λύω").unwrap();
    let h = strings(&["verb", "present", "indicative", "act", "sg", "1st", "uncontracted"]);
    greek_lexicon::site::extract_verb_inflection(&mut verb, &h, "λύ.ω").unwrap();
    let h = strings(&["verb", "present", "indicative", "sg", "1st", "inflection"]);
    assert_eq!(
        greek_lexicon::site::extract_verb_inflection(&mut verb, &h, "x"),
        Err(BuildError::MissingDimension(greek_lexicon::grammar::Dimension::Voice))
    );
    let first = verb.present.unwrap().thematic.unwrap().contracted.unwrap().indicative.unwrap()
        .active.unwrap().singular.unwrap().first.unwrap();
    assert_eq!(first[0].contracted.as_deref(), Some("λύω"));
    assert_eq!(first[0].uncontracted, Some(strings(&["λύ", "ω"])));
}

#[test]
fn stem_titles_name_the_passive() {
    assert_eq!(
        greek_lexicon::site::title_header_words("aorist θη-indicative"),
        strings(&["aorist", "indicative", "pass"])
    );
    assert_eq!(greek_lexicon::site::title_header_words("present"), strings(&["present"]));
}

#[test]
fn site_layout_counts_every_coordinate() {
    let rows = vec![
        vec![cell(TableCellType::Header, "a", Some("2"), Some("2"))],
        vec![cell(TableCellType::Data, "b", None, None)],
    ];
    let cells = place_site_rows(&rows).unwrap();
    assert_eq!(cells.len(), 5);
    let b = cells.iter().find(|c| c.content == "b").unwrap();
    assert_eq!((b.x, b.y), (2, 1));
    let huge = vec![vec![cell(TableCellType::Data, "c", None, Some("18446744073709551615"))]];
    assert!(matches!(place_site_rows(&huge), Err(GridError::TooLarge)));
}
