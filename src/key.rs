//! The dotted path, in a stored lexicon entry, of the forms a declension
//! names: the same walk as resolution, written as field names.
use vstd::prelude::*;
use crate::grammar::{
    Adjective, Case, Contraction, Declension, Dimension, Gender, Mood, Number, PartOfSpeech, Person, Tense,
    Theme, Voice,
};
use crate::resolve::{query_missing, query_missing_exec, ResolveError};

verus! {

pub open spec fn gender_name(v: Gender) -> Seq<char> {
    match v {
        Gender::Masculine => "masculine"@,
        Gender::Feminine => "feminine"@,
        Gender::Neuter => "neuter"@,
    }
}

pub open spec fn number_name(v: Number) -> Seq<char> {
    match v {
        Number::Singular => "singular"@,
        Number::Dual => "dual"@,
        Number::Plural => "plural"@,
    }
}

pub open spec fn case_name(v: Case) -> Seq<char> {
    match v {
        Case::Vocative => "vocative"@,
        Case::Nominative => "nominative"@,
        Case::Accusative => "accusative"@,
        Case::Dative => "dative"@,
        Case::Genitive => "genitive"@,
    }
}

pub open spec fn tense_name(v: Tense) -> Seq<char> {
    match v {
        Tense::Present => "present"@,
        Tense::Imperfect => "imperfect"@,
        Tense::Future => "future"@,
        Tense::FuturePerfect => "future_perfect"@,
        Tense::Aorist => "aorist"@,
        Tense::Aorist2nd => "aorist_2nd"@,
        Tense::Perfect => "perfect"@,
        Tense::Perfect2nd => "perfect_2nd"@,
        Tense::Pluperfect => "pluperfect"@,
    }
}

pub open spec fn theme_name(v: Theme) -> Seq<char> {
    match v {
        Theme::Thematic => "thematic"@,
        Theme::Athematic => "athematic"@,
    }
}

pub open spec fn contraction_name(v: Contraction) -> Seq<char> {
    match v {
        Contraction::Contracted => "contracted"@,
        Contraction::Uncontracted => "uncontracted"@,
    }
}

pub open spec fn mood_name(v: Mood) -> Seq<char> {
    match v {
        Mood::Indicative => "indicative"@,
        Mood::Subjunctive => "subjunctive"@,
        Mood::Optative => "optative"@,
        Mood::Imperative => "imperative"@,
        Mood::Infinitive => "infinitive"@,
        Mood::Participle => "participle"@,
    }
}

pub open spec fn voice_name(v: Voice) -> Seq<char> {
    match v {
        Voice::Active => "active"@,
        Voice::Middle => "middle"@,
        Voice::Passive => "passive"@,
    }
}

pub open spec fn person_name(v: Person) -> Seq<char> {
    match v {
        Person::First => "first"@,
        Person::Second => "second"@,
        Person::Third => "third"@,
    }
}

fn gender_str(v: Gender) -> (r: &'static str)
    ensures
        r@ == gender_name(v),
{
    match v {
        Gender::Masculine => "masculine",
        Gender::Feminine => "feminine",
        Gender::Neuter => "neuter",
    }
}

fn number_str(v: Number) -> (r: &'static str)
    ensures
        r@ == number_name(v),
{
    match v {
        Number::Singular => "singular",
        Number::Dual => "dual",
        Number::Plural => "plural",
    }
}

fn case_str(v: Case) -> (r: &'static str)
    ensures
        r@ == case_name(v),
{
    match v {
        Case::Vocative => "vocative",
        Case::Nominative => "nominative",
        Case::Accusative => "accusative",
        Case::Dative => "dative",
        Case::Genitive => "genitive",
    }
}

fn tense_str(v: Tense) -> (r: &'static str)
    ensures
        r@ == tense_name(v),
{
    match v {
        Tense::Present => "present",
        Tense::Imperfect => "imperfect",
        Tense::Future => "future",
        Tense::FuturePerfect => "future_perfect",
        Tense::Aorist => "aorist",
        Tense::Aorist2nd => "aorist_2nd",
        Tense::Perfect => "perfect",
        Tense::Perfect2nd => "perfect_2nd",
        Tense::Pluperfect => "pluperfect",
    }
}

fn theme_str(v: Theme) -> (r: &'static str)
    ensures
        r@ == theme_name(v),
{
    match v {
        Theme::Thematic => "thematic",
        Theme::Athematic => "athematic",
    }
}

fn contraction_str(v: Contraction) -> (r: &'static str)
    ensures
        r@ == contraction_name(v),
{
    match v {
        Contraction::Contracted => "contracted",
        Contraction::Uncontracted => "uncontracted",
    }
}

fn mood_str(v: Mood) -> (r: &'static str)
    ensures
        r@ == mood_name(v),
{
    match v {
        Mood::Indicative => "indicative",
        Mood::Subjunctive => "subjunctive",
        Mood::Optative => "optative",
        Mood::Imperative => "imperative",
        Mood::Infinitive => "infinitive",
        Mood::Participle => "participle",
    }
}

fn voice_str(v: Voice) -> (r: &'static str)
    ensures
        r@ == voice_name(v),
{
    match v {
        Voice::Active => "active",
        Voice::Middle => "middle",
        Voice::Passive => "passive",
    }
}

fn person_str(v: Person) -> (r: &'static str)
    ensures
        r@ == person_name(v),
{
    match v {
        Person::First => "first",
        Person::Second => "second",
        Person::Third => "third",
    }
}

pub open spec fn degree_name(v: Adjective) -> Seq<char> {
    match v {
        Adjective::Positive => "positive"@,
        Adjective::Comparative => "comparative"@,
        Adjective::Superlative => "superlative"@,
    }
}

fn degree_str(v: Adjective) -> (r: &'static str)
    ensures
        r@ == degree_name(v),
{
    match v {
        Adjective::Positive => "positive",
        Adjective::Comparative => "comparative",
        Adjective::Superlative => "superlative",
    }
}

/// The field that holds a part of speech's tree in a stored paradigm.
pub open spec fn tree_name(p: PartOfSpeech) -> Seq<char> {
    match p {
        PartOfSpeech::Noun(_) => "noun"@,
        PartOfSpeech::Article(_) => "article"@,
        PartOfSpeech::Pronoun(_) => "pronoun"@,
        PartOfSpeech::Quantifier => "quantifier"@,
        PartOfSpeech::Numeral(_) => "numeral"@,
        PartOfSpeech::Adjective(d) => "adjective"@ + "."@ + degree_name(d),
        PartOfSpeech::Verb => "verb"@,
        PartOfSpeech::Adverb => "adverb"@,
        PartOfSpeech::Particle => "particle"@,
        PartOfSpeech::Preposition => "preposition"@,
        PartOfSpeech::Interjection => "interjection"@,
    }
}

fn tree_str(p: PartOfSpeech) -> (r: String)
    ensures
        r@ == tree_name(p),
{
    match p {
        PartOfSpeech::Noun(_) => String::from_str("noun"),
        PartOfSpeech::Article(_) => String::from_str("article"),
        PartOfSpeech::Pronoun(_) => String::from_str("pronoun"),
        PartOfSpeech::Quantifier => String::from_str("quantifier"),
        PartOfSpeech::Numeral(_) => String::from_str("numeral"),
        PartOfSpeech::Adjective(d) => {
            let mut s = String::from_str("adjective");
            push_part(&mut s, degree_str(d));
            s
        },
        PartOfSpeech::Verb => String::from_str("verb"),
        PartOfSpeech::Adverb => String::from_str("adverb"),
        PartOfSpeech::Particle => String::from_str("particle"),
        PartOfSpeech::Preposition => String::from_str("preposition"),
        PartOfSpeech::Interjection => String::from_str("interjection"),
    }
}

/// The gender, number and case steps of a noun-like walk.
pub open spec fn noun_steps(q: Declension) -> Seq<char> {
    "."@ + gender_name(q.gender->0) + "."@ + number_name(q.number->0) + "."@ + case_name(q.case->0)
}

/// The steps of a verb walk after the mood: the voice for the
/// infinitive; the voice then the noun steps for the participle; the
/// voice, number and person otherwise.
pub open spec fn after_mood(q: Declension) -> Seq<char> {
    if q.mood == Some(Mood::Infinitive) {
        "."@ + voice_name(q.voice->0)
    } else if q.mood == Some(Mood::Participle) {
        "."@ + voice_name(q.voice->0) + noun_steps(q)
    } else {
        "."@ + voice_name(q.voice->0) + "."@ + number_name(q.number->0) + "."@ + person_name(
            q.person->0,
        )
    }
}

/// The steps of a declension's walk, in the order resolution takes them.
pub open spec fn walk_steps(q: Declension) -> Seq<char> {
    match q.part_of_speech {
        PartOfSpeech::Verb => "."@ + tense_name(q.tense->0) + "."@ + theme_name(
            q.theme.unwrap_or(Theme::Thematic),
        ) + "."@ + contraction_name(q.contraction.unwrap_or(Contraction::Contracted)) + "."@
            + mood_name(q.mood->0) + after_mood(q),
        PartOfSpeech::Adverb | PartOfSpeech::Particle | PartOfSpeech::Preposition => Seq::empty(),
        _ => noun_steps(q),
    }
}

/// The path, in a stored paradigm, of the forms a declension names: the
/// part of speech's tree, then the same dimensions resolution walks, then
/// the list of forms and their contracted spelling. A query that lacks a
/// dimension resolution requires fails as resolution does.
pub open spec fn key_spec(q: Declension) -> Result<Seq<char>, ResolveError> {
    if q.part_of_speech == PartOfSpeech::Interjection {
        Err(ResolveError::UnsupportedPartOfSpeech(PartOfSpeech::Interjection))
    } else if query_missing(q) is Some {
        Err(ResolveError::MissingRequiredDimension(query_missing(q)->0))
    } else {
        Ok(tree_name(q.part_of_speech) + walk_steps(q) + ".[].contracted"@)
    }
}

fn push_part(s: &mut String, part: &str)
    ensures
        final(s)@ == old(s)@ + "."@ + part@,
{
    s.append(".");
    s.append(part);
}

fn push_noun_steps(s: &mut String, q: &Declension)
    requires
        q.gender is Some && q.number is Some && q.case is Some,
    ensures
        final(s)@ == old(s)@ + noun_steps(*q),
{
    push_part(s, gender_str(q.gender.unwrap()));
    push_part(s, number_str(q.number.unwrap()));
    push_part(s, case_str(q.case.unwrap()));
}

fn push_after_mood(s: &mut String, q: &Declension)
    requires
        q.part_of_speech == PartOfSpeech::Verb,
        query_missing(*q) is None,
    ensures
        final(s)@ == old(s)@ + after_mood(*q),
{
    let m = q.mood.unwrap();
    let ghost s0 = s@;
    push_part(s, voice_str(q.voice.unwrap()));
    if m == Mood::Participle {
        let ghost s1 = s@;
        push_noun_steps(s, q);
        assert(s@ =~= s0 + after_mood(*q));
    } else if m != Mood::Infinitive {
        push_part(s, number_str(q.number.unwrap()));
        push_part(s, person_str(q.person.unwrap()));
        assert(s@ =~= s0 + after_mood(*q));
    } else {
        assert(s@ =~= s0 + after_mood(*q));
    }
}

fn push_verb_steps(s: &mut String, q: &Declension)
    requires
        q.part_of_speech == PartOfSpeech::Verb,
        query_missing(*q) is None,
    ensures
        final(s)@ == old(s)@ + walk_steps(*q),
{
    let th = match q.theme {
        Some(th) => th,
        None => Theme::Thematic,
    };
    let co = match q.contraction {
        Some(co) => co,
        None => Contraction::Contracted,
    };
    let ghost s0 = s@;
    push_part(s, tense_str(q.tense.unwrap()));
    push_part(s, theme_str(th));
    push_part(s, contraction_str(co));
    push_part(s, mood_str(q.mood.unwrap()));
    let ghost s1 = s@;
    push_after_mood(s, q);
    assert(s@ =~= s0 + walk_steps(*q));
}

impl Declension {
    /// The path, in a stored paradigm, of the forms this declension names.
    pub fn to_inflection_key(&self) -> (r: Result<String, ResolveError>)
        ensures
            match r {
                Ok(s) => key_spec(*self) == Ok::<Seq<char>, ResolveError>(s@),
                Err(e) => key_spec(*self) == Err::<Seq<char>, ResolveError>(e),
            },
    {
        if self.part_of_speech == PartOfSpeech::Interjection {
            return Err(ResolveError::UnsupportedPartOfSpeech(PartOfSpeech::Interjection));
        }
        match query_missing_exec(self) {
            Some(d) => {
                return Err(ResolveError::MissingRequiredDimension(d));
            },
            None => {},
        }
        let mut s = tree_str(self.part_of_speech);
        let ghost s0 = s@;
        match self.part_of_speech {
            PartOfSpeech::Verb => push_verb_steps(&mut s, self),
            PartOfSpeech::Adverb | PartOfSpeech::Particle | PartOfSpeech::Preposition => {
                assert(s@ =~= s0 + walk_steps(*self));
            },
            _ => push_noun_steps(&mut s, self),
        }
        s.append(".[].contracted");
        Ok(s)
    }
}

} // verus!
