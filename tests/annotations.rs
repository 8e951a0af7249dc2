use greek_lexicon::fixes::{fix_declension, get_word_fix, is_cardinal, is_ordinal};
use greek_lexicon::generate::{inflect, inflect_verb, is_vowel, InflectError};
use greek_lexicon::grammar::{
    Adjective, Article, Case, Declension, DeclensionType, Dialect, Gender, Mood, Noun, Number,
    Numeral, PartOfSpeech, Person, Pronoun, Tense, Voice,
};
use greek_lexicon::lexicon::{VerbInflectionThemes, WordInflection};
use greek_lexicon::morph::{declension_from_comps, get_word_declension, MorphError};
use greek_lexicon::options::{best_option, compute_option_matching, ParsingOption};
use greek_lexicon::paradigm::place_tense;
use greek_lexicon::texts::Book;

fn comps(parts: &[&str]) -> Vec<String> {
    parts.iter().map(|s| s.to_string()).collect()
}

#[test]
fn noun_codes_read() {
    let d = get_word_declension(&comps(&["Noun", "Gen-Si-Fem"])).unwrap();
    assert_eq!(d.part_of_speech, PartOfSpeech::Noun(Noun::Common));
    assert_eq!(d.case, Some(Case::Genitive));
    assert_eq!(d.number, Some(Number::Singular));
    assert_eq!(d.gender, Some(Gender::Feminine));
    assert_eq!(d.tense, None);
}

#[test]
fn verb_codes_read() {
    let d = get_word_declension(&comps(&["Verb", "Pres-Act-Ind", "3rd Si"])).unwrap();
    assert_eq!(d.part_of_speech, PartOfSpeech::Verb);
    assert_eq!(d.mood, Some(Mood::Indicative));
    assert_eq!(d.voice, Some(Voice::Active));
    assert_eq!(d.tense, Some(Tense::Present));
    assert_eq!(d.person, Some(Person::Third));
    assert_eq!(d.number, Some(Number::Singular));
}

#[test]
fn participle_codes_read() {
    let d = declension_from_comps("participle", "aor-act-par", "nom-pl-mas").unwrap();
    assert_eq!(d.mood, Some(Mood::Participle));
    assert_eq!(d.tense, Some(Tense::Aorist));
    assert_eq!(d.case, Some(Case::Nominative));
    assert_eq!(d.number, Some(Number::Plural));
    assert_eq!(d.gender, Some(Gender::Masculine));
    assert_eq!(d.person, None);
}

#[test]
fn other_codes_read() {
    let d = get_word_declension(&comps(&["Def Art", "Nom-Si-Mas+kai"])).unwrap();
    assert_eq!(d.part_of_speech, PartOfSpeech::Article(Article::Definite));
    assert_eq!(d.gender, Some(Gender::Masculine));
    let d = get_word_declension(&comps(&["1st pers pron", "acc-si"])).unwrap();
    assert_eq!(d.part_of_speech, PartOfSpeech::Pronoun(Pronoun::Personal));
    assert_eq!(d.person, Some(Person::First));
    assert_eq!(d.gender, None);
    let d = get_word_declension(&comps(&["Noun (Name)", "Indeclinable"])).unwrap();
    assert_eq!(d.decl_type, Some(DeclensionType::Indeclinable));
}

#[test]
fn bad_codes_are_errors() {
    assert_eq!(get_word_declension(&comps(&["gerund"])), Err(MorphError::PartOfSpeech));
    assert_eq!(get_word_declension(&comps(&["verb", "pres-act"])), Err(MorphError::Mood));
    assert_eq!(get_word_declension(&comps(&["noun", "nom-si"])), Err(MorphError::Gender));
    assert_eq!(get_word_declension(&comps(&["noun", "si-mas"])), Err(MorphError::Case));
}

#[test]
fn number_words() {
    assert!(is_cardinal("seven"));
    assert!(is_cardinal("thirteen"));
    assert!(is_cardinal("eight"));
    assert!(is_cardinal("eighteen"));
    assert!(is_cardinal("eighty"));
    assert!(!is_cardinal("teen"));
    assert!(!is_cardinal("good"));
    assert!(is_ordinal("seventh"));
    assert!(!is_ordinal("first"));
    assert!(!is_ordinal("seven"));
}

#[test]
fn declensions_are_fixed() {
    let mut d = Declension::partial_default(PartOfSpeech::Adjective(Adjective::Positive));
    fix_declension("επτα", "seven", &mut d);
    assert_eq!(d.part_of_speech, PartOfSpeech::Numeral(Numeral::Cardinal));
    let mut d = Declension::partial_default(PartOfSpeech::Adjective(Adjective::Positive));
    fix_declension("πας", "all", &mut d);
    assert_eq!(d.part_of_speech, PartOfSpeech::Quantifier);
    let mut d = Declension::partial_default(PartOfSpeech::Adjective(Adjective::Positive));
    fix_declension("αγαθος", "good", &mut d);
    assert_eq!(d.part_of_speech, PartOfSpeech::Adjective(Adjective::Positive));
}

#[test]
fn known_words_are_fixed() {
    let d = get_word_fix(Book::Mark, 3, 3, 3, "οναρ").unwrap();
    assert_eq!(d.gender, Some(Gender::Neuter));
    let d = get_word_fix(Book::Matthew, 1, 5, 15, "x").unwrap();
    assert_eq!(d.case, Some(Case::Genitive));
    assert_eq!(d.part_of_speech, PartOfSpeech::Noun(Noun::Proper));
    assert!(get_word_fix(Book::John, 1, 1, 1, "λογος").is_none());
}

#[test]
fn first_declension_feminine() {
    let d = Declension {
        gender: Some(Gender::Feminine),
        decl_type: Some(DeclensionType::First),
        ..Declension::partial_default(PartOfSpeech::Noun(Noun::Common))
    };
    let g = inflect("τιμη", &d).unwrap();
    let n = g.feminine.unwrap();
    let sg = n.singular.unwrap();
    assert_eq!(sg.genitive.unwrap()[0].contracted.as_deref(), Some("τιμης"));
    let pl = n.plural.unwrap();
    let dat = &pl.dative.unwrap()[0];
    assert_eq!(dat.contracted.as_deref(), Some("τιμαις"));
    assert_eq!(dat.uncontracted, Some(vec!["τιμ".to_string(), "αις".to_string()]));
}

#[test]
fn first_declension_masculine_and_errors() {
    let d = Declension {
        gender: Some(Gender::Masculine),
        decl_type: Some(DeclensionType::First),
        ..Declension::partial_default(PartOfSpeech::Noun(Noun::Common))
    };
    let g = inflect("πολιτης", &d).unwrap();
    let sg = g.masculine.unwrap().singular.unwrap();
    assert_eq!(sg.genitive.unwrap()[0].contracted.as_deref(), Some("πολιτου"));
    assert_eq!(inflect("λογος", &Declension { decl_type: Some(DeclensionType::Second), ..d }).unwrap_err(), InflectError::DeclensionType);
    assert_eq!(inflect("δωρον", &Declension { gender: Some(Gender::Neuter), ..d }).unwrap_err(), InflectError::Gender);
    assert_eq!(inflect("λογος", &d).unwrap_err(), InflectError::Ending);
}

#[test]
fn verbs_in_omega() {
    let t = inflect_verb("λυω").unwrap();
    let first = t.present.unwrap().thematic.unwrap().contracted.unwrap().indicative.unwrap().active.unwrap().singular.unwrap().first.unwrap();
    assert_eq!(first[0].uncontracted, Some(vec!["λυ".to_string(), "ω".to_string()]));
    assert_eq!(inflect_verb("ειμι").unwrap_err(), InflectError::Ending);
    assert!(is_vowel('ά'));
    assert!(!is_vowel('λ'));
}

#[test]
fn tense_tables_merge_by_dialect() {
    let mut list: Vec<WordInflection> = Vec::new();
    place_tense(&mut list, vec![Dialect::Attic], Tense::Present, VerbInflectionThemes::empty());
    assert_eq!(list.len(), 1);
    place_tense(&mut list, vec![Dialect::Attic], Tense::Aorist, VerbInflectionThemes::empty());
    assert_eq!(list.len(), 1);
    assert!(list[0].grab_tense_field(Tense::Aorist));
    place_tense(&mut list, vec![Dialect::Attic], Tense::Present, VerbInflectionThemes::empty());
    assert_eq!(list.len(), 2);
    place_tense(&mut list, vec![Dialect::Koine], Tense::Future, VerbInflectionThemes::empty());
    assert_eq!(list.len(), 3);
    assert_eq!(list[2].dialects, vec![Dialect::Koine]);
}

fn option(parsing: &str, index: i32) -> ParsingOption {
    ParsingOption {
        word: "τιμη".to_string(),
        uncontracted: String::new(),
        parsing: parsing.to_string(),
        opt_index: index,
        inflection_lemma: "τιμη".to_string(),
    }
}

#[test]
fn analyses_are_scored() {
    let d = Declension {
        gender: Some(Gender::Feminine),
        number: Some(Number::Singular),
        case: Some(Case::Nominative),
        ..Declension::partial_default(PartOfSpeech::Noun(Noun::Common))
    };
    assert_eq!(compute_option_matching(&option("(fem)  nom\tsg", 0), &d), 9);
    assert_eq!(compute_option_matching(&option("(masc) gen pl", 1), &d), 6);
    let options = vec![option("(masc) gen pl", 0), option("(fem) nom sg", 1), option("(fem) nom sg", 2)];
    assert_eq!(best_option(&options, &d), Some(1));
    assert_eq!(best_option(&vec![], &d), None);
}
