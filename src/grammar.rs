//! The grammatical vocabulary: parts of speech, the inflectional dimensions
//! and the `Declension` bundle that names one cell of a paradigm.
use vstd::prelude::*;

verus! {

#[derive(Debug, PartialEq, Eq, Structural, Clone, Copy, Hash, PartialOrd, Ord)]
pub enum Noun {
    Common,
    Proper,
}

#[derive(Debug, PartialEq, Eq, Structural, Clone, Copy, Hash, PartialOrd, Ord)]
pub enum Pronoun {
    Relative,
    Interrogative,
    Indefinite,
    Reciprocal,
    Reflexive,
    Demonstrative,
    Personal,
}

#[derive(Debug, PartialEq, Eq, Structural, Clone, Copy, Hash, PartialOrd, Ord)]
pub enum Article {
    Definite,
    Indefinite,
}

#[derive(Debug, PartialEq, Eq, Structural, Clone, Copy, Hash, PartialOrd, Ord)]
pub enum Adjective {
    Positive,
    Comparative,
    Superlative,
}

#[derive(Debug, PartialEq, Eq, Structural, Clone, Copy, Hash, PartialOrd, Ord)]
pub enum Numeral {
    Cardinal,
    Ordinal,
    Adverbial,
}

#[derive(Debug, PartialEq, Eq, Structural, Clone, Copy, Hash, PartialOrd, Ord)]
pub enum PartOfSpeech {
    Verb,
    Adverb,
    Preposition,
    Particle,
    Interjection,
    Quantifier,
    Numeral(Numeral),
    Noun(Noun),
    Pronoun(Pronoun),
    Article(Article),
    Adjective(Adjective),
}

#[derive(Debug, PartialEq, Eq, Structural, Clone, Copy, Hash, PartialOrd, Ord)]
pub enum Gender {
    Masculine,
    Feminine,
    Neuter,
}

#[derive(Debug, PartialEq, Eq, Structural, Clone, Copy, Hash, PartialOrd, Ord)]
pub enum Number {
    Singular,
    Dual,
    Plural,
}

#[derive(Debug, PartialEq, Eq, Structural, Clone, Copy, Hash, PartialOrd, Ord)]
pub enum Person {
    First,
    Second,
    Third,
}

#[derive(Debug, PartialEq, Eq, Structural, Clone, Copy, Hash, PartialOrd, Ord)]
pub enum Case {
    Vocative,
    Nominative,
    Accusative,
    Dative,
    Genitive,
}

#[derive(Debug, PartialEq, Eq, Structural, Clone, Copy, Hash, PartialOrd, Ord)]
pub enum Voice {
    Active,
    Middle,
    Passive,
}

#[derive(Debug, PartialEq, Eq, Structural, Clone, Copy, Hash, PartialOrd, Ord)]
pub enum Mood {
    Indicative,
    Subjunctive,
    Optative,
    Imperative,
    Infinitive,
    Participle,
}

#[derive(Debug, PartialEq, Eq, Structural, Clone, Copy, Hash, PartialOrd, Ord)]
pub enum Tense {
    Present,
    Imperfect,
    Future,
    FuturePerfect,
    Aorist,
    Aorist2nd,
    Perfect,
    Perfect2nd,
    Pluperfect,
}

#[derive(Debug, PartialEq, Eq, Structural, Clone, Copy, Hash, PartialOrd, Ord)]
pub enum Theme {
    Thematic,
    Athematic,
}

#[derive(Debug, PartialEq, Eq, Structural, Clone, Copy, Hash, PartialOrd, Ord)]
pub enum Contraction {
    Contracted,
    Uncontracted,
}

#[derive(Debug, PartialEq, Eq, Structural, Clone, Copy, Hash, PartialOrd, Ord)]
pub enum DeclensionType {
    First,
    Second,
    Third,
    Indeclinable,
}

/// A word of an annotated verse: its text, its translations and its analysis.
#[derive(Debug, Clone)]
pub struct Word {
    pub language: LanguageCode,
    pub text: String,
    pub translation: std::collections::HashMap<LanguageCode, String>,
    pub declension: Declension,
}

/// An annotated verse.
#[derive(Debug, Clone)]
pub struct Verse {
    pub collection: crate::texts::Collection,
    pub book: crate::texts::Book,
    pub chapter_number: u8,
    pub verse_number: u8,
    pub translation: std::collections::HashMap<LanguageCode, String>,
    pub words: Vec<Word>,
}

#[derive(Debug, PartialEq, Eq, Structural, Clone, Copy, Hash, PartialOrd, Ord)]
pub enum Dialect {
    Attic,
    Koine,
    Epic,
    Laconian,
    Doric,
    Ionic,
    Aeolic,
    Homeric,
    Arcadocypriot,
    Cretan,
    Macedonian,
}

/// A grammatical dimension, as a paradigm walks them.
#[derive(Debug, PartialEq, Eq, Structural, Clone, Copy, Hash)]
pub enum Dimension {
    PartOfSpeech,
    Degree,
    Gender,
    Number,
    Case,
    Tense,
    Theme,
    Contraction,
    Mood,
    Voice,
    Person,
}

/// The gender a dictionary's gender mark ("m", "f", "n") names.
pub fn gender_from_mark(mark: &str) -> (r: Option<Gender>)
    ensures
        r == (if mark@ == "m"@ {
            Some(Gender::Masculine)
        } else if mark@ == "f"@ {
            Some(Gender::Feminine)
        } else if mark@ == "n"@ {
            Some(Gender::Neuter)
        } else {
            None::<Gender>
        }),
{
    let m = mark.to_owned();
    if m == "m".to_owned() {
        Some(Gender::Masculine)
    } else if m == "f".to_owned() {
        Some(Gender::Feminine)
    } else if m == "n".to_owned() {
        Some(Gender::Neuter)
    } else {
        None
    }
}

/// A grammatical specification: the part of speech and one optional value
/// per inflectional dimension. Two declensions are equal when all their
/// fields are.
#[derive(Debug, PartialEq, Eq, Structural, Clone, Copy, Hash)]
pub struct Declension {
    pub part_of_speech: PartOfSpeech,
    pub mood: Option<Mood>,
    pub person: Option<Person>,
    pub number: Option<Number>,
    pub gender: Option<Gender>,
    pub case: Option<Case>,
    pub voice: Option<Voice>,
    pub tense: Option<Tense>,
    pub theme: Option<Theme>,
    pub contraction: Option<Contraction>,
    pub decl_type: Option<DeclensionType>,
}

impl Declension {
    pub open spec fn partial_default_spec(pos: PartOfSpeech) -> Declension {
        Declension {
            part_of_speech: pos,
            mood: None,
            person: None,
            number: None,
            gender: None,
            case: None,
            voice: None,
            tense: None,
            theme: None,
            contraction: None,
            decl_type: None,
        }
    }

    /// A declension of the given part of speech with every dimension unset.
    pub fn partial_default(pos: PartOfSpeech) -> (r: Declension)
        ensures
            r == Declension::partial_default_spec(pos),
    {
        Declension {
            part_of_speech: pos,
            mood: None,
            person: None,
            number: None,
            gender: None,
            case: None,
            voice: None,
            tense: None,
            theme: None,
            contraction: None,
            decl_type: None,
        }
    }
}

#[derive(Debug, PartialEq, Eq, Structural, Clone, Copy, Hash, PartialOrd, Ord)]
pub enum Language {
    Greek,
    English,
}

#[derive(Debug, PartialEq, Eq, Structural, Clone, Copy, Hash, PartialOrd, Ord)]
pub enum LanguageCode {
    Grc,
    En,
}

impl Language {
    /// The ISO 639 code of the language.
    pub fn lang_code(&self) -> (r: LanguageCode)
        ensures
            *self == Language::Greek ==> r == LanguageCode::Grc,
            *self == Language::English ==> r == LanguageCode::En,
    {
        match self {
            Language::Greek => LanguageCode::Grc,
            Language::English => LanguageCode::En,
        }
    }
}

} // verus!
