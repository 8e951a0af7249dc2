use greek_lexicon::fuzzy::{closest, closest_plausible, closest_with_score, remove_diacritics, similarity_score};
use greek_lexicon::grammar::{
    Case, Declension, Gender, Language, LanguageCode, Mood, Noun, Number, PartOfSpeech, Person,
    Tense, Voice,
};
use greek_lexicon::resolve::ResolveError;
use greek_lexicon::grammar::Dimension;

#[test]
fn exact_match_ranks_first_with_full_score() {
    let ranked = closest_with_score("λόγος", &vec!["λόγος".to_string()]);
    assert_eq!(ranked.len(), 1);
    assert_eq!(ranked[0].value, "λόγος");
    assert_eq!(ranked[0].score.num, 2 * ranked[0].score.den);
}

#[test]
fn diacritic_differences_beat_letter_differences() {
    let list = vec!["λογος".to_string(), "λαγος".to_string()];
    assert_eq!(closest("λόγος", &list), vec!["λογος".to_string(), "λαγος".to_string()]);
    let list = vec!["λαγος".to_string(), "λογος".to_string()];
    assert_eq!(closest("λόγος", &list), vec!["λογος".to_string(), "λαγος".to_string()]);
}

#[test]
fn ties_keep_list_order() {
    let list = vec!["ab".to_string(), "ba".to_string(), "ab".to_string()];
    let ranked = closest_with_score("ab", &list);
    let order: Vec<usize> = ranked.iter().map(|s| s.index).collect();
    assert_eq!(order, vec![0, 2, 1]);
}

#[test]
fn transposition_scores_half() {
    let s = similarity_score("ab", "ba");
    assert_eq!((s.num, s.den), (4, 4));
    let s = similarity_score("ab", "cd");
    assert_eq!(s.num, 0);
    let s = similarity_score("", "");
    assert_eq!((s.num, s.den), (2, 1));
}

#[test]
fn implausible_candidates_are_dropped() {
    assert!(closest_plausible("ab", &vec!["cd".to_string()]).is_empty());
    assert_eq!(
        closest_plausible("ab", &vec!["cd".to_string(), "ax".to_string()]),
        vec!["ax".to_string()]
    );
    assert!(closest("ab", &vec![]).is_empty());
}

#[test]
fn diacritics_are_stripped() {
    assert_eq!(remove_diacritics("λόγος"), "λογος");
    assert_eq!(remove_diacritics("ἄνθρωπος"), "ανθρωπος");
    assert_eq!(remove_diacritics("ᾠδή"), "ωδη");
    assert_eq!(remove_diacritics("e\u{301}"), "e");
}

#[test]
fn noun_key_names_its_path() {
    let q = Declension {
        gender: Some(Gender::Feminine),
        number: Some(Number::Plural),
        case: Some(Case::Genitive),
        ..Declension::partial_default(PartOfSpeech::Noun(Noun::Common))
    };
    assert_eq!(q.to_inflection_key().unwrap(), "noun.feminine.plural.genitive.[].contracted");
}

#[test]
fn verb_key_fills_theme_and_contraction() {
    let q = Declension {
        tense: Some(Tense::Aorist2nd),
        mood: Some(Mood::Subjunctive),
        voice: Some(Voice::Middle),
        number: Some(Number::Singular),
        person: Some(Person::Third),
        ..Declension::partial_default(PartOfSpeech::Verb)
    };
    assert_eq!(
        q.to_inflection_key().unwrap(),
        "verb.aorist_2nd.thematic.contracted.subjunctive.middle.singular.third.[].contracted"
    );
    let q = Declension { person: None, ..q };
    assert_eq!(
        q.to_inflection_key().unwrap_err(),
        ResolveError::MissingRequiredDimension(Dimension::Person)
    );
    let q = Declension::partial_default(PartOfSpeech::Adverb);
    assert_eq!(q.to_inflection_key().unwrap(), "adverb.[].contracted");
    let q = Declension::partial_default(PartOfSpeech::Interjection);
    assert_eq!(
        q.to_inflection_key().unwrap_err(),
        ResolveError::UnsupportedPartOfSpeech(PartOfSpeech::Interjection)
    );
}

#[test]
fn keys_follow_the_resolution_walk() {
    let art = Declension {
        gender: Some(Gender::Feminine),
        number: Some(Number::Plural),
        case: Some(Case::Genitive),
        ..Declension::partial_default(PartOfSpeech::Article(greek_lexicon::grammar::Article::Definite))
    };
    assert_eq!(art.to_inflection_key().unwrap(), "article.feminine.plural.genitive.[].contracted");
    let bare = Declension { gender: None, ..art };
    assert_eq!(
        bare.to_inflection_key().unwrap_err(),
        ResolveError::MissingRequiredDimension(Dimension::Gender)
    );
    let inf = Declension {
        tense: Some(Tense::Present),
        mood: Some(Mood::Infinitive),
        voice: Some(Voice::Active),
        ..Declension::partial_default(PartOfSpeech::Verb)
    };
    assert_eq!(
        inf.to_inflection_key().unwrap(),
        "verb.present.thematic.contracted.infinitive.active.[].contracted"
    );
    let part = Declension {
        mood: Some(Mood::Participle),
        gender: Some(Gender::Masculine),
        number: Some(Number::Singular),
        case: Some(Case::Nominative),
        ..inf
    };
    assert_eq!(
        part.to_inflection_key().unwrap(),
        "verb.present.thematic.contracted.participle.active.masculine.singular.nominative.[].contracted"
    );
    let adj = Declension {
        part_of_speech: PartOfSpeech::Adjective(greek_lexicon::grammar::Adjective::Comparative),
        ..art
    };
    assert_eq!(
        adj.to_inflection_key().unwrap(),
        "adjective.comparative.feminine.plural.genitive.[].contracted"
    );
}

#[test]
fn language_codes() {
    assert_eq!(Language::Greek.lang_code(), LanguageCode::Grc);
    assert_eq!(Language::English.lang_code(), LanguageCode::En);
}
