//! Looking a grammatical specification up in a paradigm: the query must
//! carry every dimension its part of speech requires, and the walk fails
//! at the first branch the paradigm does not attest.
use vstd::prelude::*;
use crate::grammar::{
    Adjective, Case, Contraction, Declension, Dimension, Gender, Mood, Number, PartOfSpeech,
    Person, Tense, Theme, Voice,
};
use crate::lexicon::{
    forms_view, is_finite, FormView, InflectionForm, NounInflectionGenders, VerbInflectionMoods,
    VerbInflectionTenses, WordInflection,
};

verus! {

#[derive(Debug, PartialEq, Eq, Structural, Clone, Copy)]
pub enum ResolveError {
    /// The query leaves out a dimension its part of speech requires.
    MissingRequiredDimension(Dimension),
    /// The paradigm has no branch for the query at this dimension.
    FormNotAttested(Dimension),
    /// The part of speech has no paradigm.
    UnsupportedPartOfSpeech(PartOfSpeech),
}

pub open spec fn noun_query_missing(q: Declension) -> Option<Dimension> {
    if q.gender is None {
        Some(Dimension::Gender)
    } else if q.number is None {
        Some(Dimension::Number)
    } else if q.case is None {
        Some(Dimension::Case)
    } else {
        None
    }
}

/// The first dimension, in schema order, that the query needs and lacks.
pub open spec fn query_missing(q: Declension) -> Option<Dimension> {
    match q.part_of_speech {
        PartOfSpeech::Noun(_) | PartOfSpeech::Article(_) | PartOfSpeech::Pronoun(_)
        | PartOfSpeech::Quantifier | PartOfSpeech::Numeral(_) | PartOfSpeech::Adjective(_) =>
            noun_query_missing(q),
        PartOfSpeech::Verb => if q.tense is None {
            Some(Dimension::Tense)
        } else if q.mood is None {
            Some(Dimension::Mood)
        } else if q.voice is None {
            Some(Dimension::Voice)
        } else if q.mood == Some(Mood::Participle) {
            noun_query_missing(q)
        } else if q.mood == Some(Mood::Infinitive) {
            None
        } else if q.number is None {
            Some(Dimension::Number)
        } else if q.person is None {
            Some(Dimension::Person)
        } else {
            None
        },
        _ => None,
    }
}

pub open spec fn found(o: Option<Seq<FormView>>, d: Dimension) -> Result<Seq<FormView>, ResolveError> {
    match o {
        Some(f) => Ok(f),
        None => Err(ResolveError::FormNotAttested(d)),
    }
}

/// Walks a noun-like tree by the query's gender, number and case.
pub open spec fn resolve_genders(g: NounInflectionGenders, q: Declension) -> Result<
    Seq<FormView>,
    ResolveError,
> {
    match g.branch(q.gender->0) {
        None => Err(ResolveError::FormNotAttested(Dimension::Gender)),
        Some(n) => match n.branch(q.number->0) {
            None => Err(ResolveError::FormNotAttested(Dimension::Number)),
            Some(c) => found(c.leaf(q.case->0), Dimension::Case),
        },
    }
}

pub open spec fn resolve_slot(s: Option<NounInflectionGenders>, q: Declension) -> Result<
    Seq<FormView>,
    ResolveError,
> {
    match s {
        None => Err(ResolveError::FormNotAttested(Dimension::PartOfSpeech)),
        Some(g) => resolve_genders(g, q),
    }
}

/// Walks the moods of a verb tree by the query's mood and what follows it.
pub open spec fn resolve_moods(m: VerbInflectionMoods, q: Declension) -> Result<
    Seq<FormView>,
    ResolveError,
> {
    let mood = q.mood->0;
    if mood == Mood::Infinitive {
        match m.infinitive {
            None => Err(ResolveError::FormNotAttested(Dimension::Mood)),
            Some(i) => found(i.leaf(q.voice->0), Dimension::Voice),
        }
    } else if mood == Mood::Participle {
        match m.participle {
            None => Err(ResolveError::FormNotAttested(Dimension::Mood)),
            Some(p) => match p.branch(q.voice->0) {
                None => Err(ResolveError::FormNotAttested(Dimension::Voice)),
                Some(g) => resolve_genders(g, q),
            },
        }
    } else {
        match m.finite(mood) {
            None => Err(ResolveError::FormNotAttested(Dimension::Mood)),
            Some(v) => match v.branch(q.voice->0) {
                None => Err(ResolveError::FormNotAttested(Dimension::Voice)),
                Some(n) => match n.branch(q.number->0) {
                    None => Err(ResolveError::FormNotAttested(Dimension::Number)),
                    Some(p) => found(p.leaf(q.person->0), Dimension::Person),
                },
            },
        }
    }
}

/// Walks a verb tree: tense, theme (thematic unless asked), contraction
/// (contracted unless asked), then the mood.
pub open spec fn resolve_tenses(t: VerbInflectionTenses, q: Declension) -> Result<
    Seq<FormView>,
    ResolveError,
> {
    match t.branch(q.tense->0) {
        None => Err(ResolveError::FormNotAttested(Dimension::Tense)),
        Some(th) => match th.branch(q.theme.unwrap_or(Theme::Thematic)) {
            None => Err(ResolveError::FormNotAttested(Dimension::Theme)),
            Some(c) => match c.branch(q.contraction.unwrap_or(Contraction::Contracted)) {
                None => Err(ResolveError::FormNotAttested(Dimension::Contraction)),
                Some(m) => resolve_moods(m, q),
            },
        },
    }
}

pub open spec fn resolve_list(l: Option<Vec<InflectionForm>>) -> Result<Seq<FormView>, ResolveError> {
    match l {
        None => Err(ResolveError::FormNotAttested(Dimension::PartOfSpeech)),
        Some(v) => Ok(forms_view(v@)),
    }
}

/// What a query resolves to in a paradigm.
pub open spec fn resolve_spec(t: WordInflection, q: Declension) -> Result<Seq<FormView>, ResolveError> {
    if q.part_of_speech == PartOfSpeech::Interjection {
        Err(ResolveError::UnsupportedPartOfSpeech(PartOfSpeech::Interjection))
    } else if query_missing(q) is Some {
        Err(ResolveError::MissingRequiredDimension(query_missing(q)->0))
    } else {
        match q.part_of_speech {
            PartOfSpeech::Noun(_) => resolve_slot(t.noun, q),
            PartOfSpeech::Article(_) => resolve_slot(t.article, q),
            PartOfSpeech::Pronoun(_) => resolve_slot(t.pronoun, q),
            PartOfSpeech::Quantifier => resolve_slot(t.quantifier, q),
            PartOfSpeech::Numeral(_) => resolve_slot(t.numeral, q),
            PartOfSpeech::Adjective(d) => match t.adjective {
                None => Err(ResolveError::FormNotAttested(Dimension::PartOfSpeech)),
                Some(a) => match a.branch(d) {
                    None => Err(ResolveError::FormNotAttested(Dimension::Degree)),
                    Some(g) => resolve_genders(g, q),
                },
            },
            PartOfSpeech::Verb => match t.verb {
                None => Err(ResolveError::FormNotAttested(Dimension::PartOfSpeech)),
                Some(v) => resolve_tenses(v, q),
            },
            PartOfSpeech::Adverb => resolve_list(t.adverb),
            PartOfSpeech::Particle => resolve_list(t.particle),
            PartOfSpeech::Preposition => resolve_list(t.preposition),
            PartOfSpeech::Interjection => Err(
                ResolveError::UnsupportedPartOfSpeech(PartOfSpeech::Interjection),
            ),
        }
    }
}

fn copy_strings(v: &Vec<String>) -> (r: Vec<String>)
    ensures
        r@.map_values(|s: String| s@) == v@.map_values(|s: String| s@),
{
    let mut r: Vec<String> = Vec::new();
    let mut i: usize = 0;
    while i < v.len()
        invariant
            0 <= i <= v.len(),
            r@.len() == i,
            r@.map_values(|s: String| s@) == v@.subrange(0, i as int).map_values(|s: String| s@),
        decreases v.len() - i,
    {
        let ghost r0 = r@;
        let c = v[i].clone();
        assert(c@ == v@[i as int]@);
        r.push(c);
        assert forall|k: int| 0 <= k < i implies #[trigger] r@[k]@ == v@[k]@ by {
            assert(r@[k] == r0[k]);
            assert(r0.map_values(|s: String| s@)[k] == v@.subrange(0, i as int).map_values(|s: String| s@)[k]);
        }
        assert(r@.map_values(|s: String| s@) =~= v@.subrange(0, i + 1).map_values(|s: String| s@));
        i = i + 1;
    }
    assert(v@.subrange(0, i as int) =~= v@);
    r
}

fn copy_form(f: &InflectionForm) -> (r: InflectionForm)
    ensures
        r.spec_view() == f.spec_view(),
{
    InflectionForm {
        contracted: match &f.contracted {
            Some(s) => Some(s.clone()),
            None => None,
        },
        uncontracted: match &f.uncontracted {
            Some(v) => Some(copy_strings(v)),
            None => None,
        },
    }
}

fn copy_forms(v: &Vec<InflectionForm>) -> (r: Vec<InflectionForm>)
    ensures
        forms_view(r@) == forms_view(v@),
{
    let mut r: Vec<InflectionForm> = Vec::new();
    let mut i: usize = 0;
    while i < v.len()
        invariant
            0 <= i <= v.len(),
            r@.len() == i,
            forms_view(r@) == forms_view(v@.subrange(0, i as int)),
        decreases v.len() - i,
    {
        let ghost r0 = r@;
        let c = copy_form(&v[i]);
        r.push(c);
        assert forall|k: int| 0 <= k < i implies #[trigger] r@[k].spec_view() == v@[k].spec_view() by {
            assert(r@[k] == r0[k]);
            assert(forms_view(r0)[k] == forms_view(v@.subrange(0, i as int))[k]);
        }
        assert(forms_view(r@) =~= forms_view(v@.subrange(0, i + 1)));
        i = i + 1;
    }
    assert(v@.subrange(0, i as int) =~= v@);
    r
}

fn found_exec(o: &Option<Vec<InflectionForm>>, d: Dimension) -> (r: Result<Vec<InflectionForm>, ResolveError>)
    ensures
        r is Ok <==> o is Some,
        r is Ok ==> forms_view(r->Ok_0@) == forms_view(o->0@),
        r is Err ==> r->Err_0 == ResolveError::FormNotAttested(d),
{
    match o {
        Some(v) => Ok(copy_forms(v)),
        None => Err(ResolveError::FormNotAttested(d)),
    }
}

pub open spec fn same_result(r: Result<Vec<InflectionForm>, ResolveError>, s: Result<Seq<FormView>, ResolveError>) -> bool {
    match r {
        Ok(v) => s is Ok && forms_view(v@) == s->Ok_0,
        Err(e) => s is Err && e == s->Err_0,
    }
}

fn find_inflection_noun(g: &NounInflectionGenders, q: &Declension) -> (r: Result<Vec<InflectionForm>, ResolveError>)
    requires
        noun_query_missing(*q) is None,
    ensures
        same_result(r, resolve_genders(*g, *q)),
{
    let numbers = match q.gender.unwrap() {
        Gender::Masculine => &g.masculine,
        Gender::Feminine => &g.feminine,
        Gender::Neuter => &g.neuter,
    };
    let numbers = match numbers {
        Some(n) => n,
        None => {
            return Err(ResolveError::FormNotAttested(Dimension::Gender));
        },
    };
    let cases = match q.number.unwrap() {
        Number::Singular => &numbers.singular,
        Number::Dual => &numbers.dual,
        Number::Plural => &numbers.plural,
    };
    let cases = match cases {
        Some(c) => c,
        None => {
            return Err(ResolveError::FormNotAttested(Dimension::Number));
        },
    };
    let leaf = match q.case.unwrap() {
        Case::Nominative => &cases.nominative,
        Case::Genitive => &cases.genitive,
        Case::Dative => &cases.dative,
        Case::Accusative => &cases.accusative,
        Case::Vocative => &cases.vocative,
    };
    found_exec(leaf, Dimension::Case)
}

fn find_inflection_slot(s: &Option<NounInflectionGenders>, q: &Declension) -> (r: Result<Vec<InflectionForm>, ResolveError>)
    requires
        noun_query_missing(*q) is None,
    ensures
        same_result(r, resolve_slot(*s, *q)),
{
    match s {
        Some(g) => find_inflection_noun(g, q),
        None => Err(ResolveError::FormNotAttested(Dimension::PartOfSpeech)),
    }
}

fn find_inflection_verb_infinitive(m: &VerbInflectionMoods, q: &Declension) -> (r: Result<Vec<InflectionForm>, ResolveError>)
    requires
        q.mood == Some(Mood::Infinitive),
        q.voice is Some,
    ensures
        same_result(r, resolve_moods(*m, *q)),
{
    let inf = match &m.infinitive {
        Some(i) => i,
        None => {
            return Err(ResolveError::FormNotAttested(Dimension::Mood));
        },
    };
    let leaf = match q.voice.unwrap() {
        Voice::Active => &inf.active,
        Voice::Middle => &inf.middle,
        Voice::Passive => &inf.passive,
    };
    found_exec(leaf, Dimension::Voice)
}

fn find_inflection_verb_participle(m: &VerbInflectionMoods, q: &Declension) -> (r: Result<Vec<InflectionForm>, ResolveError>)
    requires
        q.mood == Some(Mood::Participle),
        q.voice is Some,
        noun_query_missing(*q) is None,
    ensures
        same_result(r, resolve_moods(*m, *q)),
{
    let part = match &m.participle {
        Some(p) => p,
        None => {
            return Err(ResolveError::FormNotAttested(Dimension::Mood));
        },
    };
    let genders = match q.voice.unwrap() {
        Voice::Active => &part.active,
        Voice::Middle => &part.middle,
        Voice::Passive => &part.passive,
    };
    match genders {
        Some(g) => find_inflection_noun(g, q),
        None => Err(ResolveError::FormNotAttested(Dimension::Voice)),
    }
}

fn find_inflection_verb_form(m: &VerbInflectionMoods, q: &Declension) -> (r: Result<Vec<InflectionForm>, ResolveError>)
    requires
        q.mood is Some,
        is_finite(q.mood->0),
        q.voice is Some,
        q.number is Some,
        q.person is Some,
    ensures
        same_result(r, resolve_moods(*m, *q)),
{
    let voices = match q.mood.unwrap() {
        Mood::Indicative => &m.indicative,
        Mood::Subjunctive => &m.subjunctive,
        Mood::Optative => &m.optative,
        _ => &m.imperative,
    };
    let voices = match voices {
        Some(v) => v,
        None => {
            return Err(ResolveError::FormNotAttested(Dimension::Mood));
        },
    };
    let numbers = match q.voice.unwrap() {
        Voice::Active => &voices.active,
        Voice::Middle => &voices.middle,
        Voice::Passive => &voices.passive,
    };
    let numbers = match numbers {
        Some(n) => n,
        None => {
            return Err(ResolveError::FormNotAttested(Dimension::Voice));
        },
    };
    let persons = match q.number.unwrap() {
        Number::Singular => &numbers.singular,
        Number::Dual => &numbers.dual,
        Number::Plural => &numbers.plural,
    };
    let persons = match persons {
        Some(p) => p,
        None => {
            return Err(ResolveError::FormNotAttested(Dimension::Number));
        },
    };
    let leaf = match q.person.unwrap() {
        Person::First => &persons.first,
        Person::Second => &persons.second,
        Person::Third => &persons.third,
    };
    found_exec(leaf, Dimension::Person)
}

fn find_inflection_verb(t: &VerbInflectionTenses, q: &Declension) -> (r: Result<Vec<InflectionForm>, ResolveError>)
    requires
        q.part_of_speech == PartOfSpeech::Verb,
        query_missing(*q) is None,
    ensures
        same_result(r, resolve_tenses(*t, *q)),
{
    let themes = match q.tense.unwrap() {
        Tense::Present => &t.present,
        Tense::Imperfect => &t.imperfect,
        Tense::Future => &t.future,
        Tense::FuturePerfect => &t.future_perfect,
        Tense::Aorist => &t.aorist,
        Tense::Aorist2nd => &t.aorist_2nd,
        Tense::Perfect => &t.perfect,
        Tense::Perfect2nd => &t.perfect_2nd,
        Tense::Pluperfect => &t.pluperfect,
    };
    let themes = match themes {
        Some(th) => th,
        None => {
            return Err(ResolveError::FormNotAttested(Dimension::Tense));
        },
    };
    let contractions = match q.theme {
        Some(Theme::Athematic) => &themes.athematic,
        _ => &themes.thematic,
    };
    let contractions = match contractions {
        Some(c) => c,
        None => {
            return Err(ResolveError::FormNotAttested(Dimension::Theme));
        },
    };
    let moods = match q.contraction {
        Some(Contraction::Uncontracted) => &contractions.uncontracted,
        _ => &contractions.contracted,
    };
    let moods = match moods {
        Some(m) => m,
        None => {
            return Err(ResolveError::FormNotAttested(Dimension::Contraction));
        },
    };
    match q.mood.unwrap() {
        Mood::Infinitive => find_inflection_verb_infinitive(moods, q),
        Mood::Participle => find_inflection_verb_participle(moods, q),
        _ => find_inflection_verb_form(moods, q),
    }
}

pub(crate) fn query_missing_exec(q: &Declension) -> (r: Option<Dimension>)
    ensures
        r == query_missing(*q),
{
    let noun_missing = if q.gender.is_none() {
        Some(Dimension::Gender)
    } else if q.number.is_none() {
        Some(Dimension::Number)
    } else if q.case.is_none() {
        Some(Dimension::Case)
    } else {
        None
    };
    match q.part_of_speech {
        PartOfSpeech::Noun(_) | PartOfSpeech::Article(_) | PartOfSpeech::Pronoun(_)
        | PartOfSpeech::Quantifier | PartOfSpeech::Numeral(_) | PartOfSpeech::Adjective(_) =>
            noun_missing,
        PartOfSpeech::Verb => if q.tense.is_none() {
            Some(Dimension::Tense)
        } else if q.mood.is_none() {
            Some(Dimension::Mood)
        } else if q.voice.is_none() {
            Some(Dimension::Voice)
        } else if q.mood == Some(Mood::Participle) {
            noun_missing
        } else if q.mood == Some(Mood::Infinitive) {
            None
        } else if q.number.is_none() {
            Some(Dimension::Number)
        } else if q.person.is_none() {
            Some(Dimension::Person)
        } else {
            None
        },
        _ => None,
    }
}

fn find_inflection_list(l: &Option<Vec<InflectionForm>>) -> (r: Result<Vec<InflectionForm>, ResolveError>)
    ensures
        same_result(r, resolve_list(*l)),
{
    found_exec(l, Dimension::PartOfSpeech)
}

/// The contracted spellings among the forms, in order.
pub open spec fn contracted_of(fs: Seq<FormView>) -> Seq<Seq<char>>
    decreases fs.len(),
{
    if fs.len() == 0 {
        Seq::empty()
    } else {
        contracted_of(fs.drop_last()) + match fs.last().0 {
            Some(c) => seq![c],
            None => Seq::empty(),
        }
    }
}

fn contracted_strings(v: &Vec<InflectionForm>) -> (r: Vec<String>)
    ensures
        r@.map_values(|s: String| s@) == contracted_of(forms_view(v@)),
{
    let mut r: Vec<String> = Vec::new();
    let mut i: usize = 0;
    while i < v.len()
        invariant
            0 <= i <= v.len(),
            r@.map_values(|s: String| s@) == contracted_of(forms_view(v@.subrange(0, i as int))),
        decreases v.len() - i,
    {
        let ghost r0 = r@;
        let ghost pre = forms_view(v@.subrange(0, i as int));
        assert(forms_view(v@.subrange(0, i + 1)).drop_last() =~= pre);
        assert(forms_view(v@.subrange(0, i + 1)).last() == v@[i as int].spec_view());
        match &v[i].contracted {
            Some(c) => {
                r.push(c.clone());
                assert(r@.map_values(|s: String| s@) =~= r0.map_values(|s: String| s@) + seq![c@]);
            },
            None => {},
        }
        i = i + 1;
    }
    assert(v@.subrange(0, i as int) =~= v@);
    r
}

impl WordInflection {
    /// The contracted spellings of the forms the paradigm holds for `q`.
    pub fn find_inflection(&self, q: &Declension) -> (r: Result<Vec<String>, ResolveError>)
        ensures
            match r {
                Ok(v) => resolve_spec(*self, *q) is Ok && v@.map_values(|s: String| s@)
                    == contracted_of(resolve_spec(*self, *q)->Ok_0),
                Err(e) => resolve_spec(*self, *q) == Err::<Seq<FormView>, ResolveError>(e),
            },
    {
        match self.resolve(q) {
            Ok(forms) => Ok(contracted_strings(&forms)),
            Err(e) => Err(e),
        }
    }

    /// The surface forms the paradigm holds for the query `q`.
    pub fn resolve(&self, q: &Declension) -> (r: Result<Vec<InflectionForm>, ResolveError>)
        ensures
            same_result(r, resolve_spec(*self, *q)),
    {
        if q.part_of_speech == PartOfSpeech::Interjection {
            return Err(ResolveError::UnsupportedPartOfSpeech(PartOfSpeech::Interjection));
        }
        match query_missing_exec(q) {
            Some(d) => {
                return Err(ResolveError::MissingRequiredDimension(d));
            },
            None => {},
        }
        match q.part_of_speech {
            PartOfSpeech::Noun(_) => find_inflection_slot(&self.noun, q),
            PartOfSpeech::Article(_) => find_inflection_slot(&self.article, q),
            PartOfSpeech::Pronoun(_) => find_inflection_slot(&self.pronoun, q),
            PartOfSpeech::Quantifier => find_inflection_slot(&self.quantifier, q),
            PartOfSpeech::Numeral(_) => find_inflection_slot(&self.numeral, q),
            PartOfSpeech::Adjective(d) => match &self.adjective {
                None => Err(ResolveError::FormNotAttested(Dimension::PartOfSpeech)),
                Some(a) => {
                    let g = match d {
                        Adjective::Positive => &a.positive,
                        Adjective::Comparative => &a.comparative,
                        Adjective::Superlative => &a.superlative,
                    };
                    match g {
                        None => Err(ResolveError::FormNotAttested(Dimension::Degree)),
                        Some(g) => find_inflection_noun(g, q),
                    }
                },
            },
            PartOfSpeech::Verb => match &self.verb {
                None => Err(ResolveError::FormNotAttested(Dimension::PartOfSpeech)),
                Some(v) => find_inflection_verb(v, q),
            },
            PartOfSpeech::Adverb => find_inflection_list(&self.adverb),
            PartOfSpeech::Particle => find_inflection_list(&self.particle),
            PartOfSpeech::Preposition => find_inflection_list(&self.preposition),
            PartOfSpeech::Interjection => Err(
                ResolveError::UnsupportedPartOfSpeech(PartOfSpeech::Interjection),
            ),
        }
    }
}

} // verus!
