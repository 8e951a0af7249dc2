//! Filing the second dictionary's rows: each row names one path through
//! the paradigm and whether it gives the form's spelling or its morphemes,
//! and sets that part of the form at the end of the path.
use vstd::prelude::*;
use crate::grammar::{
    Case, Contraction, Declension, Dimension, Gender, Mood, Number, PartOfSpeech, Person, Tense,
    Theme, Voice,
};
use crate::lexicon::{
    forms_view, is_finite, leaf_view, FormView, InflectionForm, NounInflectionCases,
    NounInflectionGenders, NounInflectionNumbers, VerbInflectionContractions,
    VerbInflectionInfinitive, VerbInflectionMoods, VerbInflectionNumbers, VerbInflectionParticiple,
    VerbInflectionPersons, VerbInflectionTenses, VerbInflectionThemes, VerbInflectionVoices,
};
use crate::site::strings_view;
use crate::text::{chars_of, string_of};

verus! {

/// The morphemes of `s` from `i` on, split at '.' and '·'.
pub open spec fn morphs_from(s: Seq<char>, i: int, cur: Seq<char>) -> Seq<Seq<char>>
    decreases s.len() - i,
{
    if i >= s.len() {
        seq![cur]
    } else if s[i] == '.' || s[i] == '·' {
        seq![cur] + morphs_from(s, i + 1, Seq::empty())
    } else {
        morphs_from(s, i + 1, cur.push(s[i]))
    }
}

pub open spec fn morphs(s: Seq<char>) -> Seq<Seq<char>> {
    morphs_from(s, 0, Seq::empty())
}

/// A form with its spelling, or its morphemes, set from `text`.
pub open spec fn with_part(f: FormView, contracted: bool, text: Seq<char>) -> FormView {
    if contracted {
        (Some(text), f.1)
    } else {
        (f.0, Some(morphs(text)))
    }
}

/// A leaf after a row sets a part of its form: the first form where there
/// is one, a new form otherwise.
pub open spec fn set_form(old: Option<Seq<FormView>>, contracted: bool, text: Seq<char>) -> Option<Seq<FormView>> {
    match old {
        Some(fs) => if fs.len() > 0 {
            Some(fs.update(0, with_part(fs[0], contracted, text)))
        } else {
            Some(seq![with_part((None, None), contracted, text)])
        },
        None => Some(seq![with_part((None, None), contracted, text)]),
    }
}

fn split_morphs(s: &str) -> (r: Vec<String>)
    ensures
        strings_view(r@) == morphs(s@),
{
    let cs = chars_of(s);
    let mut out: Vec<String> = Vec::new();
    let mut cur: Vec<char> = Vec::new();
    let mut i: usize = 0;
    while i < cs.len()
        invariant
            0 <= i <= cs.len(),
            cs@ == s@,
            strings_view(out@) + morphs_from(s@, i as int, cur@) == morphs(s@),
        decreases cs.len() - i,
    {
        let ghost o0 = strings_view(out@);
        if cs[i] == '.' || cs[i] == '·' {
            let ghost rest = morphs_from(s@, i + 1, Seq::empty());
            let piece = string_of(&cur);
            out.push(piece);
            assert(strings_view(out@) =~= o0.push(cur@));
            assert(o0.push(cur@) + rest =~= o0 + (seq![cur@] + rest));
            cur = Vec::new();
            assert(cur@ =~= Seq::<char>::empty());
        } else {
            cur.push(cs[i]);
        }
        i = i + 1;
    }
    let ghost o0 = strings_view(out@);
    let piece = string_of(&cur);
    out.push(piece);
    assert(strings_view(out@) =~= o0.push(cur@));
    assert(o0 + seq![cur@] =~= o0.push(cur@));
    out
}

fn set_part(f: &mut InflectionForm, contracted: bool, text: &str)
    ensures
        final(f).spec_view() == with_part(old(f).spec_view(), contracted, text@),
{
    if contracted {
        f.contracted = Some(text.to_owned());
    } else {
        let pieces = split_morphs(text);
        f.uncontracted = Some(pieces);
        assert(f.spec_view().1 == Some(strings_view(pieces@)));
    }
}

/// Sets a part of the leaf's form.
fn set_leaf(leaf: &mut Option<Vec<InflectionForm>>, contracted: bool, text: &str)
    ensures
        leaf_view(*final(leaf)) == set_form(leaf_view(*old(leaf)), contracted, text@),
{
    let mut v = match leaf.take() {
        Some(v) => v,
        None => Vec::new(),
    };
    let ghost v0 = v@;
    if v.len() > 0 {
        let mut f = v.remove(0);
        assert(f == v0[0]);
        set_part(&mut f, contracted, text);
        v.insert(0, f);
        assert(v@ =~= v0.update(0, f));
        assert(forms_view(v@) =~= forms_view(v0).update(0, with_part(v0[0].spec_view(), contracted, text@)));
    } else {
        let mut f = InflectionForm { contracted: None, uncontracted: None };
        set_part(&mut f, contracted, text);
        v.push(f);
        assert(forms_view(v@) =~= seq![with_part((None, None), contracted, text@)]);
    }
    *leaf = Some(v);
}

pub open spec fn site_cases_set(old: NounInflectionCases, new: NounInflectionCases, c: Case, contracted: bool, text: Seq<char>) -> bool {
    forall|c2: Case|
        #[trigger] new.leaf(c2) == if c2 == c {
            set_form(old.leaf(c2), contracted, text)
        } else {
            old.leaf(c2)
        }
}

pub open spec fn site_numbers_set(old: NounInflectionNumbers, new: NounInflectionNumbers, n: Number, c: Case, contracted: bool, text: Seq<char>) -> bool {
    forall|n2: Number|
        if n2 == n {
            &&& #[trigger] new.branch(n2) is Some
            &&& site_cases_set(old.branch(n2).unwrap_or(NounInflectionCases::spec_empty()), new.branch(n2)->0, c, contracted, text)
        } else {
            new.branch(n2) == old.branch(n2)
        }
}

/// `new` is `old` with the form at gender `g`, number `n` and case `c` set
/// from the row, and nothing else changed.
pub open spec fn site_genders_set(old: NounInflectionGenders, new: NounInflectionGenders, g: Gender, n: Number, c: Case, contracted: bool, text: Seq<char>) -> bool {
    forall|g2: Gender|
        if g2 == g {
            &&& #[trigger] new.branch(g2) is Some
            &&& site_numbers_set(old.branch(g2).unwrap_or(NounInflectionNumbers::spec_empty()), new.branch(g2)->0, n, c, contracted, text)
        } else {
            new.branch(g2) == old.branch(g2)
        }
}

fn set_cases(cases: &mut NounInflectionCases, c: Case, contracted: bool, text: &str)
    ensures
        site_cases_set(*old(cases), *final(cases), c, contracted, text@),
{
    match c {
        Case::Nominative => set_leaf(&mut cases.nominative, contracted, text),
        Case::Genitive => set_leaf(&mut cases.genitive, contracted, text),
        Case::Dative => set_leaf(&mut cases.dative, contracted, text),
        Case::Accusative => set_leaf(&mut cases.accusative, contracted, text),
        Case::Vocative => set_leaf(&mut cases.vocative, contracted, text),
    }
}

fn set_numbers(numbers: &mut NounInflectionNumbers, n: Number, c: Case, contracted: bool, text: &str)
    ensures
        site_numbers_set(*old(numbers), *final(numbers), n, c, contracted, text@),
{
    let slot = match n {
        Number::Singular => &mut numbers.singular,
        Number::Dual => &mut numbers.dual,
        Number::Plural => &mut numbers.plural,
    };
    let mut x = match slot.take() {
        Some(x) => x,
        None => NounInflectionCases::empty(),
    };
    set_cases(&mut x, c, contracted, text);
    *slot = Some(x);
}

pub(crate) fn set_genders(genders: &mut NounInflectionGenders, g: Gender, n: Number, c: Case, contracted: bool, text: &str)
    ensures
        site_genders_set(*old(genders), *final(genders), g, n, c, contracted, text@),
{
    let slot = match g {
        Gender::Masculine => &mut genders.masculine,
        Gender::Feminine => &mut genders.feminine,
        Gender::Neuter => &mut genders.neuter,
    };
    let mut x = match slot.take() {
        Some(x) => x,
        None => NounInflectionNumbers::empty(),
    };
    set_numbers(&mut x, n, c, contracted, text);
    *slot = Some(x);
}

pub open spec fn site_persons_set(old: VerbInflectionPersons, new: VerbInflectionPersons, p: Person, contracted: bool, text: Seq<char>) -> bool {
    forall|p2: Person|
        #[trigger] new.leaf(p2) == if p2 == p {
            set_form(old.leaf(p2), contracted, text)
        } else {
            old.leaf(p2)
        }
}

pub open spec fn site_verb_numbers_set(old: VerbInflectionNumbers, new: VerbInflectionNumbers, n: Number, p: Person, contracted: bool, text: Seq<char>) -> bool {
    forall|n2: Number|
        if n2 == n {
            &&& #[trigger] new.branch(n2) is Some
            &&& site_persons_set(old.branch(n2).unwrap_or(VerbInflectionPersons::spec_empty()), new.branch(n2)->0, p, contracted, text)
        } else {
            new.branch(n2) == old.branch(n2)
        }
}

pub open spec fn site_voices_set(old: VerbInflectionVoices, new: VerbInflectionVoices, v: Voice, n: Number, p: Person, contracted: bool, text: Seq<char>) -> bool {
    forall|v2: Voice|
        if v2 == v {
            &&& #[trigger] new.branch(v2) is Some
            &&& site_verb_numbers_set(old.branch(v2).unwrap_or(VerbInflectionNumbers::spec_empty()), new.branch(v2)->0, n, p, contracted, text)
        } else {
            new.branch(v2) == old.branch(v2)
        }
}

pub open spec fn site_infinitive_set(old: VerbInflectionInfinitive, new: VerbInflectionInfinitive, v: Voice, contracted: bool, text: Seq<char>) -> bool {
    forall|v2: Voice|
        #[trigger] new.leaf(v2) == if v2 == v {
            set_form(old.leaf(v2), contracted, text)
        } else {
            old.leaf(v2)
        }
}

pub open spec fn site_participle_set(old: VerbInflectionParticiple, new: VerbInflectionParticiple, q: Declension, contracted: bool, text: Seq<char>) -> bool {
    forall|v2: Voice|
        if v2 == q.voice->0 {
            &&& #[trigger] new.branch(v2) is Some
            &&& site_genders_set(old.branch(v2).unwrap_or(NounInflectionGenders::spec_empty()), new.branch(v2)->0, q.gender->0, q.number->0, q.case->0, contracted, text)
        } else {
            new.branch(v2) == old.branch(v2)
        }
}

/// The moods after a row: only the branch of the row's mood changes.
pub open spec fn site_moods_set(old: VerbInflectionMoods, new: VerbInflectionMoods, q: Declension, contracted: bool, text: Seq<char>) -> bool {
    let m = q.mood->0;
    &&& forall|m2: Mood|
        is_finite(m2) ==> if m2 == m {
            &&& #[trigger] new.finite(m2) is Some
            &&& site_voices_set(old.finite(m2).unwrap_or(VerbInflectionVoices::spec_empty()), new.finite(m2)->0, q.voice->0, q.number->0, q.person->0, contracted, text)
        } else {
            new.finite(m2) == old.finite(m2)
        }
    &&& if m == Mood::Infinitive {
        &&& new.infinitive is Some
        &&& site_infinitive_set(old.infinitive.unwrap_or(VerbInflectionInfinitive::spec_empty()), new.infinitive->0, q.voice->0, contracted, text)
    } else {
        new.infinitive == old.infinitive
    }
    &&& if m == Mood::Participle {
        &&& new.participle is Some
        &&& site_participle_set(old.participle.unwrap_or(VerbInflectionParticiple::spec_empty()), new.participle->0, q, contracted, text)
    } else {
        new.participle == old.participle
    }
}

pub open spec fn site_contractions_set(old: VerbInflectionContractions, new: VerbInflectionContractions, q: Declension, contracted: bool, text: Seq<char>) -> bool {
    &&& new.uncontracted == old.uncontracted
    &&& new.contracted is Some
    &&& site_moods_set(old.contracted.unwrap_or(VerbInflectionMoods::spec_empty()), new.contracted->0, q, contracted, text)
}

pub open spec fn site_themes_set(old: VerbInflectionThemes, new: VerbInflectionThemes, q: Declension, contracted: bool, text: Seq<char>) -> bool {
    forall|th: Theme|
        if th == q.theme->0 {
            &&& #[trigger] new.branch(th) is Some
            &&& site_contractions_set(old.branch(th).unwrap_or(VerbInflectionContractions::spec_empty()), new.branch(th)->0, q, contracted, text)
        } else {
            new.branch(th) == old.branch(th)
        }
}

/// `new` is `old` with the form on the row's path set from the row:
/// tense, theme, the contracted branch, then the mood's own steps.
pub open spec fn site_tenses_set(old: VerbInflectionTenses, new: VerbInflectionTenses, q: Declension, contracted: bool, text: Seq<char>) -> bool {
    forall|t: Tense|
        if t == q.tense->0 {
            &&& #[trigger] new.branch(t) is Some
            &&& site_themes_set(old.branch(t).unwrap_or(VerbInflectionThemes::spec_empty()), new.branch(t)->0, q, contracted, text)
        } else {
            new.branch(t) == old.branch(t)
        }
}

fn set_persons(persons: &mut VerbInflectionPersons, p: Person, contracted: bool, text: &str)
    ensures
        site_persons_set(*old(persons), *final(persons), p, contracted, text@),
{
    match p {
        Person::First => set_leaf(&mut persons.first, contracted, text),
        Person::Second => set_leaf(&mut persons.second, contracted, text),
        Person::Third => set_leaf(&mut persons.third, contracted, text),
    }
}

fn set_verb_numbers(numbers: &mut VerbInflectionNumbers, n: Number, p: Person, contracted: bool, text: &str)
    ensures
        site_verb_numbers_set(*old(numbers), *final(numbers), n, p, contracted, text@),
{
    let slot = match n {
        Number::Singular => &mut numbers.singular,
        Number::Dual => &mut numbers.dual,
        Number::Plural => &mut numbers.plural,
    };
    let mut x = match slot.take() {
        Some(x) => x,
        None => VerbInflectionPersons::empty(),
    };
    set_persons(&mut x, p, contracted, text);
    *slot = Some(x);
}

fn set_voices(voices: &mut VerbInflectionVoices, v: Voice, n: Number, p: Person, contracted: bool, text: &str)
    ensures
        site_voices_set(*old(voices), *final(voices), v, n, p, contracted, text@),
{
    let slot = match v {
        Voice::Active => &mut voices.active,
        Voice::Middle => &mut voices.middle,
        Voice::Passive => &mut voices.passive,
    };
    let mut x = match slot.take() {
        Some(x) => x,
        None => VerbInflectionNumbers::empty(),
    };
    set_verb_numbers(&mut x, n, p, contracted, text);
    *slot = Some(x);
}

fn set_infinitive(inf: &mut VerbInflectionInfinitive, v: Voice, contracted: bool, text: &str)
    ensures
        site_infinitive_set(*old(inf), *final(inf), v, contracted, text@),
{
    match v {
        Voice::Active => set_leaf(&mut inf.active, contracted, text),
        Voice::Middle => set_leaf(&mut inf.middle, contracted, text),
        Voice::Passive => set_leaf(&mut inf.passive, contracted, text),
    }
}

fn set_participle(part: &mut VerbInflectionParticiple, q: &Declension, contracted: bool, text: &str)
    requires
        q.voice is Some && q.gender is Some && q.number is Some && q.case is Some,
    ensures
        site_participle_set(*old(part), *final(part), *q, contracted, text@),
{
    let slot = match q.voice.unwrap() {
        Voice::Active => &mut part.active,
        Voice::Middle => &mut part.middle,
        Voice::Passive => &mut part.passive,
    };
    let mut x = match slot.take() {
        Some(x) => x,
        None => NounInflectionGenders::empty(),
    };
    set_genders(&mut x, q.gender.unwrap(), q.number.unwrap(), q.case.unwrap(), contracted, text);
    *slot = Some(x);
}

/// The row's path is complete for its mood.
pub open spec fn verb_path_ok(q: Declension) -> bool {
    &&& q.tense is Some && q.theme is Some && q.mood is Some && q.voice is Some
    &&& (is_finite(q.mood->0) ==> q.number is Some && q.person is Some)
    &&& (q.mood == Some(Mood::Participle) ==> q.gender is Some && q.number is Some && q.case is Some)
}

fn set_moods(moods: &mut VerbInflectionMoods, q: &Declension, contracted: bool, text: &str)
    requires
        verb_path_ok(*q),
    ensures
        site_moods_set(*old(moods), *final(moods), *q, contracted, text@),
{
    match q.mood.unwrap() {
        Mood::Infinitive => {
            let mut x = match moods.infinitive.take() {
                Some(x) => x,
                None => VerbInflectionInfinitive::empty(),
            };
            set_infinitive(&mut x, q.voice.unwrap(), contracted, text);
            moods.infinitive = Some(x);
        },
        Mood::Participle => {
            let mut x = match moods.participle.take() {
                Some(x) => x,
                None => VerbInflectionParticiple::empty(),
            };
            set_participle(&mut x, q, contracted, text);
            moods.participle = Some(x);
        },
        m => {
            let slot = match m {
                Mood::Indicative => &mut moods.indicative,
                Mood::Subjunctive => &mut moods.subjunctive,
                Mood::Optative => &mut moods.optative,
                _ => &mut moods.imperative,
            };
            let mut x = match slot.take() {
                Some(x) => x,
                None => VerbInflectionVoices::empty(),
            };
            set_voices(&mut x, q.voice.unwrap(), q.number.unwrap(), q.person.unwrap(), contracted, text);
            *slot = Some(x);
        },
    }
}

fn set_contractions(co: &mut VerbInflectionContractions, q: &Declension, contracted: bool, text: &str)
    requires
        verb_path_ok(*q),
    ensures
        site_contractions_set(*old(co), *final(co), *q, contracted, text@),
{
    let mut mo = match co.contracted.take() {
        Some(x) => x,
        None => VerbInflectionMoods::empty(),
    };
    set_moods(&mut mo, q, contracted, text);
    co.contracted = Some(mo);
}

fn set_themes(th: &mut VerbInflectionThemes, q: &Declension, contracted: bool, text: &str)
    requires
        verb_path_ok(*q),
    ensures
        site_themes_set(*old(th), *final(th), *q, contracted, text@),
{
    let hslot = match q.theme.unwrap() {
        Theme::Thematic => &mut th.thematic,
        Theme::Athematic => &mut th.athematic,
    };
    let mut co = match hslot.take() {
        Some(x) => x,
        None => VerbInflectionContractions::empty(),
    };
    set_contractions(&mut co, q, contracted, text);
    *hslot = Some(co);
}

pub(crate) fn set_tenses(tenses: &mut VerbInflectionTenses, q: &Declension, contracted: bool, text: &str)
    requires
        verb_path_ok(*q),
    ensures
        site_tenses_set(*old(tenses), *final(tenses), *q, contracted, text@),
{
    let tslot = match q.tense.unwrap() {
        Tense::Present => &mut tenses.present,
        Tense::Imperfect => &mut tenses.imperfect,
        Tense::Future => &mut tenses.future,
        Tense::FuturePerfect => &mut tenses.future_perfect,
        Tense::Aorist => &mut tenses.aorist,
        Tense::Aorist2nd => &mut tenses.aorist_2nd,
        Tense::Perfect => &mut tenses.perfect,
        Tense::Perfect2nd => &mut tenses.perfect_2nd,
        Tense::Pluperfect => &mut tenses.pluperfect,
    };
    let mut th = match tslot.take() {
        Some(x) => x,
        None => VerbInflectionThemes::empty(),
    };
    set_themes(&mut th, q, contracted, text);
    *tslot = Some(th);
}

} // verus!
