//! The paradigm tree: one nesting of optional branches per part of speech,
//! one level per grammatical dimension, ending in lists of surface forms.
//! A branch exists only where some form was inserted under it.
use vstd::prelude::*;
use crate::grammar::{
    Adjective, Case, Contraction, Declension, DeclensionType, Dialect, Gender, Mood, Number,
    Person, Tense, Theme, Voice,
};

verus! {

/// A surface form: the spelled-out word and, where known, its morphemes.
#[derive(Debug, Clone)]
pub struct InflectionForm {
    pub contracted: Option<String>,
    pub uncontracted: Option<Vec<String>>,
}

/// What a surface form says, as plain values.
pub type FormView = (Option<Seq<char>>, Option<Seq<Seq<char>>>);

impl InflectionForm {
    pub open spec fn spec_view(&self) -> FormView {
        (
            match self.contracted {
                Some(s) => Some(s@),
                None => None,
            },
            match self.uncontracted {
                Some(v) => Some(v@.map_values(|s: String| s@)),
                None => None,
            },
        )
    }
}

pub open spec fn forms_view(v: Seq<InflectionForm>) -> Seq<FormView> {
    v.map_values(|f: InflectionForm| f.spec_view())
}

pub open spec fn leaf_view(o: Option<Vec<InflectionForm>>) -> Option<Seq<FormView>> {
    match o {
        Some(v) => Some(forms_view(v@)),
        None => None,
    }
}

#[derive(Debug, Clone)]
pub struct NounInflectionCases {
    pub nominative: Option<Vec<InflectionForm>>,
    pub genitive: Option<Vec<InflectionForm>>,
    pub dative: Option<Vec<InflectionForm>>,
    pub accusative: Option<Vec<InflectionForm>>,
    pub vocative: Option<Vec<InflectionForm>>,
}

impl NounInflectionCases {
    pub open spec fn leaf(&self, c: Case) -> Option<Seq<FormView>> {
        match c {
            Case::Nominative => leaf_view(self.nominative),
            Case::Genitive => leaf_view(self.genitive),
            Case::Dative => leaf_view(self.dative),
            Case::Accusative => leaf_view(self.accusative),
            Case::Vocative => leaf_view(self.vocative),
        }
    }

    pub open spec fn spec_empty() -> Self {
        NounInflectionCases {
            nominative: None,
            genitive: None,
            dative: None,
            accusative: None,
            vocative: None,
        }
    }

    pub fn empty() -> (r: Self)
        ensures
            r == Self::spec_empty(),
    {
        NounInflectionCases {
            nominative: None,
            genitive: None,
            dative: None,
            accusative: None,
            vocative: None,
        }
    }
}

#[derive(Debug, Clone)]
pub struct NounInflectionNumbers {
    pub singular: Option<NounInflectionCases>,
    pub dual: Option<NounInflectionCases>,
    pub plural: Option<NounInflectionCases>,
}

impl NounInflectionNumbers {
    pub open spec fn branch(&self, n: Number) -> Option<NounInflectionCases> {
        match n {
            Number::Singular => self.singular,
            Number::Dual => self.dual,
            Number::Plural => self.plural,
        }
    }

    pub open spec fn spec_empty() -> Self {
        NounInflectionNumbers { singular: None, dual: None, plural: None }
    }

    pub fn empty() -> (r: Self)
        ensures
            r == Self::spec_empty(),
    {
        NounInflectionNumbers { singular: None, dual: None, plural: None }
    }
}

#[derive(Debug, Clone)]
pub struct NounInflectionGenders {
    pub masculine: Option<NounInflectionNumbers>,
    pub feminine: Option<NounInflectionNumbers>,
    pub neuter: Option<NounInflectionNumbers>,
}

impl NounInflectionGenders {
    pub open spec fn branch(&self, g: Gender) -> Option<NounInflectionNumbers> {
        match g {
            Gender::Masculine => self.masculine,
            Gender::Feminine => self.feminine,
            Gender::Neuter => self.neuter,
        }
    }

    pub open spec fn spec_empty() -> Self {
        NounInflectionGenders { masculine: None, feminine: None, neuter: None }
    }

    pub fn empty() -> (r: Self)
        ensures
            r == Self::spec_empty(),
    {
        NounInflectionGenders { masculine: None, feminine: None, neuter: None }
    }
}

#[derive(Debug, Clone)]
pub struct VerbInflectionPersons {
    pub first: Option<Vec<InflectionForm>>,
    pub second: Option<Vec<InflectionForm>>,
    pub third: Option<Vec<InflectionForm>>,
}

impl VerbInflectionPersons {
    pub open spec fn leaf(&self, p: Person) -> Option<Seq<FormView>> {
        match p {
            Person::First => leaf_view(self.first),
            Person::Second => leaf_view(self.second),
            Person::Third => leaf_view(self.third),
        }
    }

    pub open spec fn spec_empty() -> Self {
        VerbInflectionPersons { first: None, second: None, third: None }
    }

    pub fn empty() -> (r: Self)
        ensures
            r == Self::spec_empty(),
    {
        VerbInflectionPersons { first: None, second: None, third: None }
    }
}

#[derive(Debug, Clone)]
pub struct VerbInflectionNumbers {
    pub singular: Option<VerbInflectionPersons>,
    pub plural: Option<VerbInflectionPersons>,
    pub dual: Option<VerbInflectionPersons>,
}

impl VerbInflectionNumbers {
    pub open spec fn branch(&self, n: Number) -> Option<VerbInflectionPersons> {
        match n {
            Number::Singular => self.singular,
            Number::Dual => self.dual,
            Number::Plural => self.plural,
        }
    }

    pub open spec fn spec_empty() -> Self {
        VerbInflectionNumbers { singular: None, plural: None, dual: None }
    }

    pub fn empty() -> (r: Self)
        ensures
            r == Self::spec_empty(),
    {
        VerbInflectionNumbers { singular: None, plural: None, dual: None }
    }
}

#[derive(Debug, Clone)]
pub struct VerbInflectionVoices {
    pub active: Option<VerbInflectionNumbers>,
    pub middle: Option<VerbInflectionNumbers>,
    pub passive: Option<VerbInflectionNumbers>,
}

impl VerbInflectionVoices {
    pub open spec fn branch(&self, v: Voice) -> Option<VerbInflectionNumbers> {
        match v {
            Voice::Active => self.active,
            Voice::Middle => self.middle,
            Voice::Passive => self.passive,
        }
    }

    pub open spec fn spec_empty() -> Self {
        VerbInflectionVoices { active: None, middle: None, passive: None }
    }

    pub fn empty() -> (r: Self)
        ensures
            r == Self::spec_empty(),
    {
        VerbInflectionVoices { active: None, middle: None, passive: None }
    }
}

#[derive(Debug, Clone)]
pub struct VerbInflectionInfinitive {
    pub active: Option<Vec<InflectionForm>>,
    pub middle: Option<Vec<InflectionForm>>,
    pub passive: Option<Vec<InflectionForm>>,
}

impl VerbInflectionInfinitive {
    pub open spec fn leaf(&self, v: Voice) -> Option<Seq<FormView>> {
        match v {
            Voice::Active => leaf_view(self.active),
            Voice::Middle => leaf_view(self.middle),
            Voice::Passive => leaf_view(self.passive),
        }
    }

    pub open spec fn spec_empty() -> Self {
        VerbInflectionInfinitive { active: None, middle: None, passive: None }
    }

    pub fn empty() -> (r: Self)
        ensures
            r == Self::spec_empty(),
    {
        VerbInflectionInfinitive { active: None, middle: None, passive: None }
    }
}

#[derive(Debug, Clone)]
pub struct VerbInflectionParticiple {
    pub active: Option<NounInflectionGenders>,
    pub middle: Option<NounInflectionGenders>,
    pub passive: Option<NounInflectionGenders>,
}

impl VerbInflectionParticiple {
    pub open spec fn branch(&self, v: Voice) -> Option<NounInflectionGenders> {
        match v {
            Voice::Active => self.active,
            Voice::Middle => self.middle,
            Voice::Passive => self.passive,
        }
    }

    pub open spec fn spec_empty() -> Self {
        VerbInflectionParticiple { active: None, middle: None, passive: None }
    }

    pub fn empty() -> (r: Self)
        ensures
            r == Self::spec_empty(),
    {
        VerbInflectionParticiple { active: None, middle: None, passive: None }
    }
}

#[derive(Debug, Clone)]
pub struct VerbInflectionMoods {
    pub indicative: Option<VerbInflectionVoices>,
    pub subjunctive: Option<VerbInflectionVoices>,
    pub optative: Option<VerbInflectionVoices>,
    pub imperative: Option<VerbInflectionVoices>,
    pub infinitive: Option<VerbInflectionInfinitive>,
    pub participle: Option<VerbInflectionParticiple>,
}

/// The moods that conjugate by voice, number and person.
pub open spec fn is_finite(m: Mood) -> bool {
    m != Mood::Infinitive && m != Mood::Participle
}

impl VerbInflectionMoods {
    /// The branch of a finite mood; `None` for the infinitive and the participle.
    pub open spec fn finite(&self, m: Mood) -> Option<VerbInflectionVoices> {
        match m {
            Mood::Indicative => self.indicative,
            Mood::Subjunctive => self.subjunctive,
            Mood::Optative => self.optative,
            Mood::Imperative => self.imperative,
            _ => None,
        }
    }

    pub open spec fn spec_empty() -> Self {
        VerbInflectionMoods {
            indicative: None,
            subjunctive: None,
            optative: None,
            imperative: None,
            infinitive: None,
            participle: None,
        }
    }

    pub fn empty() -> (r: Self)
        ensures
            r == Self::spec_empty(),
    {
        VerbInflectionMoods {
            indicative: None,
            subjunctive: None,
            optative: None,
            imperative: None,
            infinitive: None,
            participle: None,
        }
    }
}

#[derive(Debug, Clone)]
pub struct VerbInflectionContractions {
    pub contracted: Option<VerbInflectionMoods>,
    pub uncontracted: Option<VerbInflectionMoods>,
}

impl VerbInflectionContractions {
    pub open spec fn branch(&self, c: Contraction) -> Option<VerbInflectionMoods> {
        match c {
            Contraction::Contracted => self.contracted,
            Contraction::Uncontracted => self.uncontracted,
        }
    }

    pub open spec fn spec_empty() -> Self {
        VerbInflectionContractions { contracted: None, uncontracted: None }
    }

    pub fn empty() -> (r: Self)
        ensures
            r == Self::spec_empty(),
    {
        VerbInflectionContractions { contracted: None, uncontracted: None }
    }
}

#[derive(Debug, Clone)]
pub struct VerbInflectionThemes {
    pub thematic: Option<VerbInflectionContractions>,
    pub athematic: Option<VerbInflectionContractions>,
}

impl VerbInflectionThemes {
    pub open spec fn branch(&self, t: Theme) -> Option<VerbInflectionContractions> {
        match t {
            Theme::Thematic => self.thematic,
            Theme::Athematic => self.athematic,
        }
    }

    pub open spec fn spec_empty() -> Self {
        VerbInflectionThemes { thematic: None, athematic: None }
    }

    pub fn empty() -> (r: Self)
        ensures
            r == Self::spec_empty(),
    {
        VerbInflectionThemes { thematic: None, athematic: None }
    }
}

#[derive(Debug, Clone)]
pub struct VerbInflectionTenses {
    pub present: Option<VerbInflectionThemes>,
    pub imperfect: Option<VerbInflectionThemes>,
    pub future: Option<VerbInflectionThemes>,
    pub aorist: Option<VerbInflectionThemes>,
    pub aorist_2nd: Option<VerbInflectionThemes>,
    pub perfect: Option<VerbInflectionThemes>,
    pub perfect_2nd: Option<VerbInflectionThemes>,
    pub future_perfect: Option<VerbInflectionThemes>,
    pub pluperfect: Option<VerbInflectionThemes>,
}

impl VerbInflectionTenses {
    pub open spec fn branch(&self, t: Tense) -> Option<VerbInflectionThemes> {
        match t {
            Tense::Present => self.present,
            Tense::Imperfect => self.imperfect,
            Tense::Future => self.future,
            Tense::FuturePerfect => self.future_perfect,
            Tense::Aorist => self.aorist,
            Tense::Aorist2nd => self.aorist_2nd,
            Tense::Perfect => self.perfect,
            Tense::Perfect2nd => self.perfect_2nd,
            Tense::Pluperfect => self.pluperfect,
        }
    }

    pub open spec fn spec_empty() -> Self {
        VerbInflectionTenses {
            present: None,
            imperfect: None,
            future: None,
            aorist: None,
            aorist_2nd: None,
            perfect: None,
            perfect_2nd: None,
            future_perfect: None,
            pluperfect: None,
        }
    }

    pub fn empty() -> (r: Self)
        ensures
            r == Self::spec_empty(),
    {
        VerbInflectionTenses {
            present: None,
            imperfect: None,
            future: None,
            aorist: None,
            aorist_2nd: None,
            perfect: None,
            perfect_2nd: None,
            future_perfect: None,
            pluperfect: None,
        }
    }
}

/// An adjective's paradigm, one noun-like tree per degree.
#[derive(Debug, Clone)]
pub struct WordAdjective {
    pub positive: Option<NounInflectionGenders>,
    pub comparative: Option<NounInflectionGenders>,
    pub superlative: Option<NounInflectionGenders>,
}

impl WordAdjective {
    pub open spec fn branch(&self, d: Adjective) -> Option<NounInflectionGenders> {
        match d {
            Adjective::Positive => self.positive,
            Adjective::Comparative => self.comparative,
            Adjective::Superlative => self.superlative,
        }
    }

    pub open spec fn spec_empty() -> Self {
        WordAdjective { positive: None, comparative: None, superlative: None }
    }

    pub fn empty() -> (r: Self)
        ensures
            r == Self::spec_empty(),
    {
        WordAdjective { positive: None, comparative: None, superlative: None }
    }
}

/// The paradigm of one word in one set of dialects.
#[derive(Debug, Clone)]
pub struct WordInflection {
    pub dialects: Vec<Dialect>,
    pub declension_type: Option<DeclensionType>,
    pub noun: Option<NounInflectionGenders>,
    pub article: Option<NounInflectionGenders>,
    pub pronoun: Option<NounInflectionGenders>,
    pub quantifier: Option<NounInflectionGenders>,
    pub numeral: Option<NounInflectionGenders>,
    pub verb: Option<VerbInflectionTenses>,
    pub adverb: Option<Vec<InflectionForm>>,
    pub particle: Option<Vec<InflectionForm>>,
    pub preposition: Option<Vec<InflectionForm>>,
    pub adjective: Option<WordAdjective>,
}

impl WordInflection {
    /// A paradigm with no branch, for the given dialects.
    pub open spec fn spec_empty(dialects: Vec<Dialect>) -> Self {
        WordInflection {
            dialects,
            declension_type: None,
            noun: None,
            article: None,
            pronoun: None,
            quantifier: None,
            numeral: None,
            verb: None,
            adverb: None,
            particle: None,
            preposition: None,
            adjective: None,
        }
    }

    pub fn empty(dialects: Vec<Dialect>) -> (r: Self)
        ensures
            r == Self::spec_empty(dialects),
    {
        WordInflection {
            dialects,
            declension_type: None,
            noun: None,
            article: None,
            pronoun: None,
            quantifier: None,
            numeral: None,
            verb: None,
            adverb: None,
            particle: None,
            preposition: None,
            adjective: None,
        }
    }
}

#[derive(Debug, Clone)]
pub struct DefinitionFormOf {
    pub lemma: String,
    pub text: String,
}

#[derive(Debug, Clone)]
pub enum LexiconEntryDefinition {
    Litteral(String),
    FormOf(DefinitionFormOf),
}

/// A lemma with its paradigms, one per dialect set, and its definitions.
#[derive(Debug, Clone)]
pub struct LexiconEntry {
    pub lemma: String,
    pub inflections: Vec<WordInflection>,
    pub definitions: Vec<LexiconEntryDefinition>,
}

#[derive(Debug, Clone)]
pub struct LexiconFilterInflection {
    pub word: String,
    pub declension: Declension,
}

#[derive(Debug, Clone)]
pub struct LexiconFilter {
    pub lemma: Option<String>,
    pub inflection: Option<LexiconFilterInflection>,
}

/// The entry point for lexicon lookups.
#[derive(Debug)]
pub struct LexiconService {}

impl LexiconService {
    pub fn new() -> (r: LexiconService) {
        LexiconService {  }
    }
}

} // verus!
