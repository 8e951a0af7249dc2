//! Reading the morphological codes that verse annotations give a word
//! ("noun", "nom-si-mas"; "verb", "pres-act-ind", "3rd si") into a
//! declension.
use vstd::prelude::*;
use crate::classify::occurs_at;
use crate::grammar::{
    Adjective, Article, Case, Declension, DeclensionType, Gender, Mood, Noun, Number, PartOfSpeech,
    Person, Pronoun, Tense, Voice,
};
use crate::text::chars_of;

verus! {

/// What a code lacks or gets wrong, in the order the codes are read.
#[derive(Debug, PartialEq, Eq, Structural, Clone, Copy)]
pub enum MorphError {
    PartOfSpeech,
    Mood,
    Person,
    Number,
    Gender,
    Case,
    Voice,
    Tense,
}

pub uninterp spec fn lower_of(s: Seq<char>) -> Seq<char>;

pub uninterp spec fn trimmed_of(s: Seq<char>) -> Seq<char>;

/// Relies on `str::to_lowercase`: the lowercase of `s`, which depends on `s` alone.
#[verifier::external_body]
pub(crate) fn to_lowercase(s: &str) -> (r: String)
    ensures
        r@ == lower_of(s@),
{
    s.to_lowercase()
}

/// Relies on `str::trim`: `s` without leading and trailing whitespace,
/// which depends on `s` alone.
#[verifier::external_body]
pub(crate) fn trim(s: &str) -> (r: String)
    ensures
        r@ == trimmed_of(s@),
{
    s.trim().to_string()
}

/// The first position of `p` in `s` from `i` on, or the length of `s`.
pub open spec fn find_from(s: Seq<char>, p: Seq<char>, i: int) -> int
    decreases s.len() - i,
{
    if i < 0 || i >= s.len() {
        s.len() as int
    } else if occurs_at(s, p, i) {
        i
    } else {
        find_from(s, p, i + 1)
    }
}

/// `s` up to its first "+kai", the mark of a word joined to "καί".
pub open spec fn cut_kai(s: Seq<char>) -> Seq<char> {
    s.subrange(0, find_from(s, "+kai"@, 0))
}

/// Code `i` of the annotation, lowercased, cut at "+kai" and trimmed;
/// empty where absent.
pub open spec fn normalized(comps: Seq<String>, i: int) -> Seq<char> {
    if 0 <= i < comps.len() {
        trimmed_of(cut_kai(lower_of(comps[i]@)))
    } else {
        Seq::empty()
    }
}

/// The pieces of `s` from `i` on, split at `sep`, `cur` being the piece read so far.
pub open spec fn pieces_from(s: Seq<char>, sep: char, i: int, cur: Seq<char>) -> Seq<Seq<char>>
    decreases s.len() - i,
{
    if i >= s.len() {
        seq![cur]
    } else if s[i] == sep {
        seq![cur] + pieces_from(s, sep, i + 1, Seq::empty())
    } else {
        pieces_from(s, sep, i + 1, cur.push(s[i]))
    }
}

/// `s` split at `sep` holds the piece `p`.
pub open spec fn has_piece(s: Seq<char>, sep: char, p: Seq<char>) -> bool {
    pieces_from(s, sep, 0, Seq::empty()).contains(p)
}

pub open spec fn contains_text(s: Seq<char>, p: Seq<char>) -> bool {
    exists|i: int| #[trigger] occurs_at(s, p, i)
}

pub open spec fn ends_with_text(s: Seq<char>, p: Seq<char>) -> bool {
    occurs_at(s, p, s.len() - p.len())
}

pub open spec fn pos_of(c0: Seq<char>) -> Option<PartOfSpeech> {
    if c0 == "noun"@ {
        Some(PartOfSpeech::Noun(Noun::Common))
    } else if c0 == "noun (name)"@ {
        Some(PartOfSpeech::Noun(Noun::Proper))
    } else if c0 == "verb"@ || c0 == "participle"@ {
        Some(PartOfSpeech::Verb)
    } else if c0 == "def art"@ {
        Some(PartOfSpeech::Article(Article::Definite))
    } else if c0 == "conjunction"@ {
        Some(PartOfSpeech::Particle)
    } else if c0 == "preposition"@ {
        Some(PartOfSpeech::Preposition)
    } else if c0 == "rel pron"@ {
        Some(PartOfSpeech::Pronoun(Pronoun::Relative))
    } else if c0 == "dem pron"@ {
        Some(PartOfSpeech::Pronoun(Pronoun::Demonstrative))
    } else if c0 == "adjective"@ || c0 == "adjective (name)"@ {
        Some(PartOfSpeech::Adjective(Adjective::Positive))
    } else if c0 == "adverb"@ {
        Some(PartOfSpeech::Adverb)
    } else if ends_with_text(c0, "pers pron"@) {
        Some(PartOfSpeech::Pronoun(Pronoun::Personal))
    } else {
        None
    }
}

pub open spec fn mood_of(c1: Seq<char>) -> Option<Mood> {
    if has_piece(c1, '-', "ind"@) {
        Some(Mood::Indicative)
    } else if has_piece(c1, '-', "sub"@) {
        Some(Mood::Subjunctive)
    } else if has_piece(c1, '-', "imp"@) {
        Some(Mood::Imperative)
    } else if has_piece(c1, '-', "opt"@) {
        Some(Mood::Optative)
    } else if has_piece(c1, '-', "inf"@) {
        Some(Mood::Infinitive)
    } else if has_piece(c1, '-', "par"@) {
        Some(Mood::Participle)
    } else {
        None
    }
}

pub open spec fn person_of(c: Seq<char>) -> Option<Person> {
    if contains_text(c, "1st"@) {
        Some(Person::First)
    } else if contains_text(c, "2nd"@) {
        Some(Person::Second)
    } else if contains_text(c, "3rd"@) {
        Some(Person::Third)
    } else {
        None
    }
}

pub open spec fn number_of(c: Seq<char>, sep: char) -> Option<Number> {
    if has_piece(c, sep, "si"@) {
        Some(Number::Singular)
    } else if has_piece(c, sep, "pl"@) {
        Some(Number::Plural)
    } else {
        None
    }
}

pub open spec fn gender_of(c: Seq<char>) -> Option<Gender> {
    if ends_with_text(c, "-mas"@) {
        Some(Gender::Masculine)
    } else if ends_with_text(c, "-fem"@) {
        Some(Gender::Feminine)
    } else if ends_with_text(c, "-neu"@) {
        Some(Gender::Neuter)
    } else {
        None
    }
}

pub open spec fn case_of(c: Seq<char>) -> Option<Case> {
    if has_piece(c, '-', "nom"@) {
        Some(Case::Nominative)
    } else if has_piece(c, '-', "gen"@) {
        Some(Case::Genitive)
    } else if has_piece(c, '-', "dat"@) {
        Some(Case::Dative)
    } else if has_piece(c, '-', "acc"@) {
        Some(Case::Accusative)
    } else if has_piece(c, '-', "voc"@) {
        Some(Case::Vocative)
    } else {
        None
    }
}

pub open spec fn voice_of(c1: Seq<char>) -> Option<Voice> {
    if has_piece(c1, '-', "act"@) {
        Some(Voice::Active)
    } else if has_piece(c1, '-', "mid"@) || has_piece(c1, '-', "mde"@) || has_piece(c1, '-', "mi/pde"@)
        || has_piece(c1, '-', "mi/pas"@) {
        Some(Voice::Middle)
    } else if has_piece(c1, '-', "pas"@) || has_piece(c1, '-', "pde"@) {
        Some(Voice::Passive)
    } else {
        None
    }
}

pub open spec fn tense_of(c1: Seq<char>) -> Option<Tense> {
    if has_piece(c1, '-', "pres"@) {
        Some(Tense::Present)
    } else if has_piece(c1, '-', "imp"@) {
        Some(Tense::Imperfect)
    } else if has_piece(c1, '-', "fut"@) {
        Some(Tense::Future)
    } else if has_piece(c1, '-', "aor"@) {
        Some(Tense::Aorist)
    } else if has_piece(c1, '-', "2aor"@) {
        Some(Tense::Aorist2nd)
    } else if has_piece(c1, '-', "perf"@) {
        Some(Tense::Perfect)
    } else if has_piece(c1, '-', "2perf"@) {
        Some(Tense::Perfect2nd)
    } else if has_piece(c1, '-', "plup"@) {
        Some(Tense::Pluperfect)
    } else {
        None
    }
}

/// Whether the part of speech takes a person from its codes, given its mood.
pub open spec fn takes_person(pos: PartOfSpeech, mood: Option<Mood>) -> bool {
    match pos {
        PartOfSpeech::Article(Article::Indefinite) | PartOfSpeech::Quantifier | PartOfSpeech::Numeral(_) => true,
        PartOfSpeech::Pronoun(p) => p != Pronoun::Relative && p != Pronoun::Demonstrative,
        PartOfSpeech::Verb => mood != Some(Mood::Infinitive) && mood != Some(Mood::Participle),
        _ => false,
    }
}

/// Whether the part of speech takes a number: `Some(true)` yes, `Some(false)`
/// no, `None` where its codes are not read for one.
pub open spec fn takes_number(pos: PartOfSpeech, mood: Option<Mood>) -> Option<bool> {
    match pos {
        PartOfSpeech::Pronoun(p) => if p == Pronoun::Personal || p == Pronoun::Relative || p
            == Pronoun::Demonstrative {
            Some(true)
        } else {
            None
        },
        PartOfSpeech::Adjective(_) | PartOfSpeech::Noun(_) | PartOfSpeech::Article(_) => Some(true),
        PartOfSpeech::Verb => Some(mood != Some(Mood::Infinitive)),
        PartOfSpeech::Particle | PartOfSpeech::Preposition | PartOfSpeech::Adverb => Some(false),
        _ => None,
    }
}

pub open spec fn takes_gender(pos: PartOfSpeech, mood: Option<Mood>, person: Option<Person>, number: Option<Number>) -> bool {
    match pos {
        PartOfSpeech::Pronoun(Pronoun::Personal) => person == Some(Person::Third) && number == Some(Number::Singular),
        PartOfSpeech::Noun(_) | PartOfSpeech::Pronoun(_) | PartOfSpeech::Article(_) | PartOfSpeech::Adjective(_) => true,
        PartOfSpeech::Verb => mood == Some(Mood::Participle),
        _ => false,
    }
}

pub open spec fn takes_case(pos: PartOfSpeech, mood: Option<Mood>) -> bool {
    match pos {
        PartOfSpeech::Particle | PartOfSpeech::Preposition | PartOfSpeech::Adverb => false,
        PartOfSpeech::Verb => mood == Some(Mood::Participle),
        _ => true,
    }
}

pub open spec fn takes_voice(pos: PartOfSpeech) -> bool {
    match pos {
        PartOfSpeech::Noun(_) | PartOfSpeech::Article(_) | PartOfSpeech::Pronoun(_) | PartOfSpeech::Preposition
        | PartOfSpeech::Adjective(_) | PartOfSpeech::Adverb | PartOfSpeech::Particle => false,
        _ => true,
    }
}

pub open spec fn takes_tense(pos: PartOfSpeech) -> bool {
    match pos {
        PartOfSpeech::Noun(_) | PartOfSpeech::Article(_) | PartOfSpeech::Particle | PartOfSpeech::Adverb
        | PartOfSpeech::Adjective(_) | PartOfSpeech::Interjection | PartOfSpeech::Preposition
        | PartOfSpeech::Pronoun(_) => false,
        _ => true,
    }
}

/// The declension that three normalised codes describe: the first gives
/// the part of speech; the others the mood, person, number, gender, case,
/// voice and tense, each read where the part of speech takes it.
pub open spec fn declension_of(c0: Seq<char>, c1: Seq<char>, c2: Seq<char>) -> Result<Declension, MorphError> {
    match pos_of(c0) {
        None => Err(MorphError::PartOfSpeech),
        Some(pos) => if c1 == "indeclinable"@ {
            Ok(Declension { decl_type: Some(DeclensionType::Indeclinable), ..Declension::partial_default_spec(pos) })
        } else {
            let mood = if pos == PartOfSpeech::Verb { mood_of(c1) } else { None };
            if pos == PartOfSpeech::Verb && mood is None {
                Err(MorphError::Mood)
            } else {
                let person_code = if pos == PartOfSpeech::Verb { c2 } else if pos is Pronoun { c0 } else { c1 };
                let person = if takes_person(pos, mood) { person_of(person_code) } else { None };
                if takes_person(pos, mood) && person is None {
                    Err(MorphError::Person)
                } else {
                    let (number_code, sep) = if pos == PartOfSpeech::Verb {
                        if mood == Some(Mood::Participle) { (c2, '-') } else { (c2, ' ') }
                    } else {
                        (c1, '-')
                    };
                    let number = if takes_number(pos, mood) == Some(true) { number_of(number_code, sep) } else { None };
                    if takes_number(pos, mood) is None || (takes_number(pos, mood) == Some(true) && number is None) {
                        Err(MorphError::Number)
                    } else {
                        let gender_code = if mood == Some(Mood::Participle) { c2 } else { c1 };
                        let gender = if takes_gender(pos, mood, person, number) { gender_of(gender_code) } else { None };
                        if takes_gender(pos, mood, person, number) && gender is None {
                            Err(MorphError::Gender)
                        } else {
                            let case_code = if pos == PartOfSpeech::Verb { c2 } else { c1 };
                            let case = if takes_case(pos, mood) { case_of(case_code) } else { None };
                            if takes_case(pos, mood) && case is None {
                                Err(MorphError::Case)
                            } else {
                                let voice = if takes_voice(pos) { voice_of(c1) } else { None };
                                if takes_voice(pos) && voice is None {
                                    Err(MorphError::Voice)
                                } else {
                                    let tense = if takes_tense(pos) { tense_of(c1) } else { None };
                                    if takes_tense(pos) && tense is None {
                                        Err(MorphError::Tense)
                                    } else {
                                        Ok(Declension {
                                            gender,
                                            number,
                                            person,
                                            mood,
                                            case,
                                            voice,
                                            tense,
                                            ..Declension::partial_default_spec(pos)
                                        })
                                    }
                                }
                            }
                        }
                    }
                }
            }
        },
    }
}

pub(crate) fn split_pieces(s: &Vec<char>, sep: char) -> (r: Vec<Vec<char>>)
    ensures
        r@.map_values(|l: Vec<char>| l@) == pieces_from(s@, sep, 0, Seq::empty()),
{
    let mut out: Vec<Vec<char>> = Vec::new();
    let mut cur: Vec<char> = Vec::new();
    let mut i: usize = 0;
    while i < s.len()
        invariant
            0 <= i <= s.len(),
            out@.map_values(|l: Vec<char>| l@) + pieces_from(s@, sep, i as int, cur@) == pieces_from(s@, sep, 0, Seq::empty()),
        decreases s.len() - i,
    {
        let ghost o0 = out@.map_values(|l: Vec<char>| l@);
        if s[i] == sep {
            let ghost rest = pieces_from(s@, sep, i + 1, Seq::empty());
            let ghost c0 = cur@;
            out.push(cur);
            assert(out@.map_values(|l: Vec<char>| l@) =~= o0.push(c0));
            assert(o0.push(c0) + rest =~= o0 + (seq![c0] + rest));
            cur = Vec::new();
            assert(cur@ =~= Seq::<char>::empty());
        } else {
            cur.push(s[i]);
        }
        i = i + 1;
    }
    let ghost o0 = out@.map_values(|l: Vec<char>| l@);
    let ghost c0 = cur@;
    out.push(cur);
    assert(out@.map_values(|l: Vec<char>| l@) =~= o0.push(c0));
    assert(o0 + seq![c0] =~= o0.push(c0));
    out
}

fn same(a: &Vec<char>, b: &Vec<char>) -> (r: bool)
    ensures
        r == (a@ == b@),
{
    if a.len() != b.len() {
        return false;
    }
    let mut i: usize = 0;
    while i < a.len()
        invariant
            a.len() == b.len(),
            0 <= i <= a.len(),
            forall|k: int| 0 <= k < i ==> a@[k] == b@[k],
        decreases a.len() - i,
    {
        if a[i] != b[i] {
            return false;
        }
        i = i + 1;
    }
    assert(a@ =~= b@);
    true
}

fn piece_in(pieces: &Vec<Vec<char>>, p: &str) -> (r: bool)
    ensures
        r == pieces@.map_values(|l: Vec<char>| l@).contains(p@),
{
    let pc = chars_of(p);
    let mut i: usize = 0;
    while i < pieces.len()
        invariant
            0 <= i <= pieces.len(),
            pc@ == p@,
            forall|k: int| 0 <= k < i ==> pieces@[k]@ != p@,
        decreases pieces.len() - i,
    {
        if same(&pieces[i], &pc) {
            assert(pieces@.map_values(|l: Vec<char>| l@)[i as int] == p@);
            return true;
        }
        i = i + 1;
    }
    false
}

fn has_piece_exec(s: &Vec<char>, sep: char, p: &str) -> (r: bool)
    ensures
        r == has_piece(s@, sep, p@),
{
    piece_in(&split_pieces(s, sep), p)
}

fn occurs_at_chars(s: &Vec<char>, p: &Vec<char>, i: usize) -> (r: bool)
    ensures
        r == occurs_at(s@, p@, i as int),
{
    if i > s.len() || p.len() > s.len() - i {
        return false;
    }
    let mut j: usize = 0;
    while j < p.len()
        invariant
            i + p@.len() <= s@.len(),
            s@.len() == s.len(),
            0 <= j <= p.len(),
            forall|k: int| 0 <= k < j ==> s@[i + k] == p@[k],
        decreases p.len() - j,
    {
        if s[i + j] != p[j] {
            assert(s@.subrange(i as int, i + p@.len())[j as int] != p@[j as int]);
            return false;
        }
        j = j + 1;
    }
    assert(s@.subrange(i as int, i + p@.len()) =~= p@);
    true
}

pub(crate) fn contains_exec(s: &Vec<char>, p: &str) -> (r: bool)
    ensures
        r == contains_text(s@, p@),
{
    let pc = chars_of(p);
    let mut i: usize = 0;
    while i < s.len()
        invariant
            0 <= i <= s.len(),
            pc@ == p@,
            forall|k: int| 0 <= k < i ==> !occurs_at(s@, p@, k),
        decreases s.len() - i,
    {
        if occurs_at_chars(s, &pc, i) {
            assert(occurs_at(s@, p@, i as int));
            return true;
        }
        i = i + 1;
    }
    if occurs_at_chars(s, &pc, i) {
        assert(occurs_at(s@, p@, i as int));
        return true;
    }
    assert forall|k: int| !occurs_at(s@, p@, k) by {
        if 0 <= k < i {
        }
    }
    false
}

fn ends_with_exec(s: &Vec<char>, p: &str) -> (r: bool)
    ensures
        r == ends_with_text(s@, p@),
{
    let pc = chars_of(p);
    if pc.len() > s.len() {
        return false;
    }
    occurs_at_chars(s, &pc, s.len() - pc.len())
}

fn eq_text(s: &Vec<char>, p: &str) -> (r: bool)
    ensures
        r == (s@ == p@),
{
    same(s, &chars_of(p))
}

fn pos_exec(c0: &Vec<char>) -> (r: Option<PartOfSpeech>)
    ensures
        r == pos_of(c0@),
{
    if eq_text(c0, "noun") {
        Some(PartOfSpeech::Noun(Noun::Common))
    } else if eq_text(c0, "noun (name)") {
        Some(PartOfSpeech::Noun(Noun::Proper))
    } else if eq_text(c0, "verb") || eq_text(c0, "participle") {
        Some(PartOfSpeech::Verb)
    } else if eq_text(c0, "def art") {
        Some(PartOfSpeech::Article(Article::Definite))
    } else if eq_text(c0, "conjunction") {
        Some(PartOfSpeech::Particle)
    } else if eq_text(c0, "preposition") {
        Some(PartOfSpeech::Preposition)
    } else if eq_text(c0, "rel pron") {
        Some(PartOfSpeech::Pronoun(Pronoun::Relative))
    } else if eq_text(c0, "dem pron") {
        Some(PartOfSpeech::Pronoun(Pronoun::Demonstrative))
    } else if eq_text(c0, "adjective") || eq_text(c0, "adjective (name)") {
        Some(PartOfSpeech::Adjective(Adjective::Positive))
    } else if eq_text(c0, "adverb") {
        Some(PartOfSpeech::Adverb)
    } else if ends_with_exec(c0, "pers pron") {
        Some(PartOfSpeech::Pronoun(Pronoun::Personal))
    } else {
        None
    }
}

fn mood_exec(c1: &Vec<char>) -> (r: Option<Mood>)
    ensures
        r == mood_of(c1@),
{
    if has_piece_exec(c1, '-', "ind") {
        Some(Mood::Indicative)
    } else if has_piece_exec(c1, '-', "sub") {
        Some(Mood::Subjunctive)
    } else if has_piece_exec(c1, '-', "imp") {
        Some(Mood::Imperative)
    } else if has_piece_exec(c1, '-', "opt") {
        Some(Mood::Optative)
    } else if has_piece_exec(c1, '-', "inf") {
        Some(Mood::Infinitive)
    } else if has_piece_exec(c1, '-', "par") {
        Some(Mood::Participle)
    } else {
        None
    }
}

fn person_exec(c: &Vec<char>) -> (r: Option<Person>)
    ensures
        r == person_of(c@),
{
    if contains_exec(c, "1st") {
        Some(Person::First)
    } else if contains_exec(c, "2nd") {
        Some(Person::Second)
    } else if contains_exec(c, "3rd") {
        Some(Person::Third)
    } else {
        None
    }
}

fn number_exec(c: &Vec<char>, sep: char) -> (r: Option<Number>)
    ensures
        r == number_of(c@, sep),
{
    if has_piece_exec(c, sep, "si") {
        Some(Number::Singular)
    } else if has_piece_exec(c, sep, "pl") {
        Some(Number::Plural)
    } else {
        None
    }
}

fn gender_exec(c: &Vec<char>) -> (r: Option<Gender>)
    ensures
        r == gender_of(c@),
{
    if ends_with_exec(c, "-mas") {
        Some(Gender::Masculine)
    } else if ends_with_exec(c, "-fem") {
        Some(Gender::Feminine)
    } else if ends_with_exec(c, "-neu") {
        Some(Gender::Neuter)
    } else {
        None
    }
}

fn case_exec(c: &Vec<char>) -> (r: Option<Case>)
    ensures
        r == case_of(c@),
{
    if has_piece_exec(c, '-', "nom") {
        Some(Case::Nominative)
    } else if has_piece_exec(c, '-', "gen") {
        Some(Case::Genitive)
    } else if has_piece_exec(c, '-', "dat") {
        Some(Case::Dative)
    } else if has_piece_exec(c, '-', "acc") {
        Some(Case::Accusative)
    } else if has_piece_exec(c, '-', "voc") {
        Some(Case::Vocative)
    } else {
        None
    }
}

fn voice_exec(c1: &Vec<char>) -> (r: Option<Voice>)
    ensures
        r == voice_of(c1@),
{
    if has_piece_exec(c1, '-', "act") {
        Some(Voice::Active)
    } else if has_piece_exec(c1, '-', "mid") || has_piece_exec(c1, '-', "mde") || has_piece_exec(
        c1,
        '-',
        "mi/pde",
    ) || has_piece_exec(c1, '-', "mi/pas") {
        Some(Voice::Middle)
    } else if has_piece_exec(c1, '-', "pas") || has_piece_exec(c1, '-', "pde") {
        Some(Voice::Passive)
    } else {
        None
    }
}

fn tense_exec(c1: &Vec<char>) -> (r: Option<Tense>)
    ensures
        r == tense_of(c1@),
{
    if has_piece_exec(c1, '-', "pres") {
        Some(Tense::Present)
    } else if has_piece_exec(c1, '-', "imp") {
        Some(Tense::Imperfect)
    } else if has_piece_exec(c1, '-', "fut") {
        Some(Tense::Future)
    } else if has_piece_exec(c1, '-', "aor") {
        Some(Tense::Aorist)
    } else if has_piece_exec(c1, '-', "2aor") {
        Some(Tense::Aorist2nd)
    } else if has_piece_exec(c1, '-', "perf") {
        Some(Tense::Perfect)
    } else if has_piece_exec(c1, '-', "2perf") {
        Some(Tense::Perfect2nd)
    } else if has_piece_exec(c1, '-', "plup") {
        Some(Tense::Pluperfect)
    } else {
        None
    }
}

/// The declension that three normalised codes describe.
pub fn declension_from_comps(c0: &str, c1: &str, c2: &str) -> (r: Result<Declension, MorphError>)
    ensures
        r == declension_of(c0@, c1@, c2@),
{
    let c0 = chars_of(c0);
    let c1 = chars_of(c1);
    let c2 = chars_of(c2);
    let pos = match pos_exec(&c0) {
        Some(p) => p,
        None => {
            return Err(MorphError::PartOfSpeech);
        },
    };
    if eq_text(&c1, "indeclinable") {
        return Ok(Declension {
            decl_type: Some(DeclensionType::Indeclinable),
            ..Declension::partial_default(pos)
        });
    }
    let is_verb = pos == PartOfSpeech::Verb;
    let mood = if is_verb {
        mood_exec(&c1)
    } else {
        None
    };
    if is_verb && mood.is_none() {
        return Err(MorphError::Mood);
    }
    let is_pronoun = matches!(pos, PartOfSpeech::Pronoun(_));
    let person_code = if is_verb {
        &c2
    } else if is_pronoun {
        &c0
    } else {
        &c1
    };
    let takes_person = match pos {
        PartOfSpeech::Article(Article::Indefinite) | PartOfSpeech::Quantifier | PartOfSpeech::Numeral(_) => true,
        PartOfSpeech::Pronoun(p) => p != Pronoun::Relative && p != Pronoun::Demonstrative,
        PartOfSpeech::Verb => mood != Some(Mood::Infinitive) && mood != Some(Mood::Participle),
        _ => false,
    };
    let person = if takes_person {
        person_exec(person_code)
    } else {
        None
    };
    if takes_person && person.is_none() {
        return Err(MorphError::Person);
    }
    let participle = mood == Some(Mood::Participle);
    let (number_code, sep) = if is_verb {
        if participle {
            (&c2, '-')
        } else {
            (&c2, ' ')
        }
    } else {
        (&c1, '-')
    };
    let takes_number: Option<bool> = match pos {
        PartOfSpeech::Pronoun(p) => if p == Pronoun::Personal || p == Pronoun::Relative || p
            == Pronoun::Demonstrative {
            Some(true)
        } else {
            None
        },
        PartOfSpeech::Adjective(_) | PartOfSpeech::Noun(_) | PartOfSpeech::Article(_) => Some(true),
        PartOfSpeech::Verb => Some(mood != Some(Mood::Infinitive)),
        PartOfSpeech::Particle | PartOfSpeech::Preposition | PartOfSpeech::Adverb => Some(false),
        _ => None,
    };
    let number = if takes_number == Some(true) {
        number_exec(number_code, sep)
    } else {
        None
    };
    if takes_number.is_none() || (takes_number == Some(true) && number.is_none()) {
        return Err(MorphError::Number);
    }
    let gender_code = if participle {
        &c2
    } else {
        &c1
    };
    let takes_gender = match pos {
        PartOfSpeech::Pronoun(Pronoun::Personal) => person == Some(Person::Third) && number == Some(Number::Singular),
        PartOfSpeech::Noun(_) | PartOfSpeech::Pronoun(_) | PartOfSpeech::Article(_) | PartOfSpeech::Adjective(_) => true,
        PartOfSpeech::Verb => participle,
        _ => false,
    };
    let gender = if takes_gender {
        gender_exec(gender_code)
    } else {
        None
    };
    if takes_gender && gender.is_none() {
        return Err(MorphError::Gender);
    }
    let case_code = if is_verb {
        &c2
    } else {
        &c1
    };
    let takes_case = match pos {
        PartOfSpeech::Particle | PartOfSpeech::Preposition | PartOfSpeech::Adverb => false,
        PartOfSpeech::Verb => participle,
        _ => true,
    };
    let case = if takes_case {
        case_exec(case_code)
    } else {
        None
    };
    if takes_case && case.is_none() {
        return Err(MorphError::Case);
    }
    let takes_voice = match pos {
        PartOfSpeech::Noun(_) | PartOfSpeech::Article(_) | PartOfSpeech::Pronoun(_) | PartOfSpeech::Preposition
        | PartOfSpeech::Adjective(_) | PartOfSpeech::Adverb | PartOfSpeech::Particle => false,
        _ => true,
    };
    let voice = if takes_voice {
        voice_exec(&c1)
    } else {
        None
    };
    if takes_voice && voice.is_none() {
        return Err(MorphError::Voice);
    }
    let takes_tense = match pos {
        PartOfSpeech::Noun(_) | PartOfSpeech::Article(_) | PartOfSpeech::Particle | PartOfSpeech::Adverb
        | PartOfSpeech::Adjective(_) | PartOfSpeech::Interjection | PartOfSpeech::Preposition
        | PartOfSpeech::Pronoun(_) => false,
        _ => true,
    };
    let tense = if takes_tense {
        tense_exec(&c1)
    } else {
        None
    };
    if takes_tense && tense.is_none() {
        return Err(MorphError::Tense);
    }
    Ok(Declension { gender, number, person, mood, case, voice, tense, ..Declension::partial_default(pos) })
}

fn cut_kai_exec(s: &str) -> (r: String)
    ensures
        r@ == cut_kai(s@),
{
    let cs = chars_of(s);
    let kai = chars_of("+kai");
    let mut i: usize = 0;
    while i < cs.len() && !occurs_at_chars(&cs, &kai, i)
        invariant
            0 <= i <= cs.len(),
            kai@ == "+kai"@,
            find_from(s@, "+kai"@, 0) == find_from(s@, "+kai"@, i as int),
            cs@ == s@,
        decreases cs.len() - i,
    {
        i = i + 1;
    }
    s.substring_char(0, i).to_owned()
}

fn normalized_exec(comps: &Vec<String>, i: usize) -> (r: String)
    ensures
        r@ == normalized(comps@, i as int),
{
    if i < comps.len() {
        let lower = to_lowercase(comps[i].as_str());
        let cut = cut_kai_exec(lower.as_str());
        trim(cut.as_str())
    } else {
        String::new()
    }
}

/// The declension that a word's annotation codes describe: each code is
/// lowercased, cut at "+kai" and trimmed, then read as
/// `declension_from_comps` does.
pub fn get_word_declension(comps: &Vec<String>) -> (r: Result<Declension, MorphError>)
    ensures
        r == declension_of(normalized(comps@, 0), normalized(comps@, 1), normalized(comps@, 2)),
{
    let c0 = normalized_exec(comps, 0);
    let c1 = normalized_exec(comps, 1);
    let c2 = normalized_exec(comps, 2);
    declension_from_comps(c0.as_str(), c1.as_str(), c2.as_str())
}

} // verus!
