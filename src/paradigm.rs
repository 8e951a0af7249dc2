//! Building a word's paradigm from the tagged words of its tables: the
//! part of speech decides which tree a word goes to and which dimensions it
//! must carry; a word that is contradictory or lacks a dimension is set
//! aside with its error, and the others still go in.
use vstd::prelude::*;
use crate::builder::{
    has_finite_mood, tagged, fill_genders_at, fill_tenses_in, fill_forms, genders_inserted, has_tag, tag_in,
    leaf_after, tenses_inserted, text_forms, verb_text_forms,
};
use crate::classify::ParsingComp;
use crate::grammar::{Adjective, Dialect, Dimension, Gender, Mood, PartOfSpeech, Tense};
use crate::lexicon::{
    forms_view, is_finite, leaf_view, FormView, InflectionForm, NounInflectionGenders,
    VerbInflectionTenses, VerbInflectionThemes, WordAdjective, WordInflection,
};
use crate::table::ParsedWord;

verus! {

/// An error that sets one word aside, or stops a whole build.
#[derive(Debug, PartialEq, Eq, Structural, Clone, Copy)]
pub enum BuildError {
    /// The word's tags name more than one part of speech.
    ClassificationConflict,
    /// The word lacks a dimension its part of speech requires.
    MissingDimension(Dimension),
    /// The part of speech has no paradigm.
    UnsupportedPartOfSpeech(PartOfSpeech),
}

/// The first part of speech that `tags` name from position `i` on.
pub open spec fn pos_from(tags: Seq<ParsingComp>, i: int) -> Option<PartOfSpeech>
    decreases tags.len() - i,
{
    if i < 0 || i >= tags.len() {
        None
    } else if tags[i] is PartOfSpeech {
        Some(tags[i]->PartOfSpeech_0)
    } else {
        pos_from(tags, i + 1)
    }
}

/// The tags name two different parts of speech.
pub open spec fn pos_conflict(tags: Seq<ParsingComp>) -> bool {
    exists|i: int, j: int|
        0 <= i < tags.len() && 0 <= j < tags.len() && (#[trigger] tags[i]) is PartOfSpeech
            && (#[trigger] tags[j]) is PartOfSpeech && tags[i] != tags[j]
}

/// The part of speech a word goes to: the one its tags name, else the one
/// being built.
pub open spec fn effective_pos(target: PartOfSpeech, tags: Seq<ParsingComp>) -> PartOfSpeech {
    match pos_from(tags, 0) {
        Some(p) => p,
        None => target,
    }
}

/// Whether the part of speech is filed as a noun: by gender, number and case.
pub open spec fn noun_like(pos: PartOfSpeech) -> bool {
    match pos {
        PartOfSpeech::Noun(_) | PartOfSpeech::Article(_) | PartOfSpeech::Pronoun(_)
        | PartOfSpeech::Quantifier | PartOfSpeech::Numeral(_) | PartOfSpeech::Adjective(_) => true,
        _ => false,
    }
}

/// The first dimension, in schema order, that a word of part of speech
/// `pos` requires and its tags lack.
pub open spec fn missing_dimension(pos: PartOfSpeech, tags: Seq<ParsingComp>) -> Option<Dimension> {
    if noun_like(pos) {
        if !tagged(tags, Dimension::Gender) {
            Some(Dimension::Gender)
        } else if !tagged(tags, Dimension::Number) {
            Some(Dimension::Number)
        } else if !tagged(tags, Dimension::Case) {
            Some(Dimension::Case)
        } else {
            None
        }
    } else if pos == PartOfSpeech::Verb {
        if !tagged(tags, Dimension::Tense) {
            Some(Dimension::Tense)
        } else if !tagged(tags, Dimension::Mood) {
            Some(Dimension::Mood)
        } else if !tagged(tags, Dimension::Voice) {
            Some(Dimension::Voice)
        } else if has_finite_mood(tags) && !tagged(tags, Dimension::Number) {
            Some(Dimension::Number)
        } else if has_finite_mood(tags) && !tagged(tags, Dimension::Person) {
            Some(Dimension::Person)
        } else if tag_in(tags, ParsingComp::Mood(Mood::Participle)) && !tagged(tags, Dimension::Gender) {
            Some(Dimension::Gender)
        } else {
            None
        }
    } else {
        None
    }
}

/// The error that sets a word aside, if any, when building part of speech `target`.
pub open spec fn word_error(target: PartOfSpeech, tags: Seq<ParsingComp>) -> Option<BuildError> {
    if pos_conflict(tags) {
        Some(BuildError::ClassificationConflict)
    } else if effective_pos(target, tags) == PartOfSpeech::Interjection {
        Some(BuildError::UnsupportedPartOfSpeech(PartOfSpeech::Interjection))
    } else {
        match missing_dimension(effective_pos(target, tags), tags) {
            Some(d) => Some(BuildError::MissingDimension(d)),
            None => None,
        }
    }
}

pub open spec fn noun_slot_inserted(
    old: Option<NounInflectionGenders>,
    new: Option<NounInflectionGenders>,
    tags: Seq<ParsingComp>,
    plain: Seq<FormView>,
) -> bool {
    &&& new is Some
    &&& genders_inserted(old.unwrap_or(NounInflectionGenders::spec_empty()), new->0, tags, plain)
}

/// `new` is `old` with a word of part of speech `pos` and tags `tags`
/// inserted: `verb` is what verb leaves receive, `plain` what every other
/// leaf receives. Nothing outside the part of speech's tree changes.
pub open spec fn word_inserted(
    old: WordInflection,
    new: WordInflection,
    pos: PartOfSpeech,
    tags: Seq<ParsingComp>,
    verb: Seq<FormView>,
    plain: Seq<FormView>,
) -> bool {
    match pos {
        PartOfSpeech::Noun(_) => new == WordInflection { noun: new.noun, ..old }
            && noun_slot_inserted(old.noun, new.noun, tags, plain),
        PartOfSpeech::Article(_) => new == WordInflection { article: new.article, ..old }
            && noun_slot_inserted(old.article, new.article, tags, plain),
        PartOfSpeech::Pronoun(_) => new == WordInflection { pronoun: new.pronoun, ..old }
            && noun_slot_inserted(old.pronoun, new.pronoun, tags, plain),
        PartOfSpeech::Quantifier => new == WordInflection { quantifier: new.quantifier, ..old }
            && noun_slot_inserted(old.quantifier, new.quantifier, tags, plain),
        PartOfSpeech::Numeral(_) => new == WordInflection { numeral: new.numeral, ..old }
            && noun_slot_inserted(old.numeral, new.numeral, tags, plain),
        PartOfSpeech::Adjective(d) => {
            let oa = old.adjective.unwrap_or(WordAdjective::spec_empty());
            &&& new == WordInflection { adjective: new.adjective, ..old }
            &&& new.adjective is Some
            &&& forall|e: Adjective| e != d ==> #[trigger] new.adjective->0.branch(e) == oa.branch(e)
            &&& noun_slot_inserted(oa.branch(d), new.adjective->0.branch(d), tags, plain)
        },
        PartOfSpeech::Verb => {
            &&& new == WordInflection { verb: new.verb, ..old }
            &&& new.verb is Some
            &&& tenses_inserted(
                old.verb.unwrap_or(VerbInflectionTenses::spec_empty()),
                new.verb->0,
                tags,
                verb,
                plain,
            )
        },
        PartOfSpeech::Adverb => new == WordInflection { adverb: new.adverb, ..old } && leaf_view(
            new.adverb,
        ) == leaf_after(leaf_view(old.adverb), true, plain),
        PartOfSpeech::Particle => new == WordInflection { particle: new.particle, ..old } && leaf_view(
            new.particle,
        ) == leaf_after(leaf_view(old.particle), true, plain),
        PartOfSpeech::Preposition => new == WordInflection { preposition: new.preposition, ..old }
            && leaf_view(new.preposition) == leaf_after(leaf_view(old.preposition), true, plain),
        PartOfSpeech::Interjection => false,
    }
}

fn first_pos(tags: &Vec<ParsingComp>) -> (r: (Option<PartOfSpeech>, bool))
    ensures
        r.0 == pos_from(tags@, 0),
        r.1 == pos_conflict(tags@),
{
    let mut found: Option<PartOfSpeech> = None;
    let mut conflict = false;
    let mut i: usize = 0;
    while i < tags.len()
        invariant
            0 <= i <= tags.len(),
            found is None ==> forall|j: int| 0 <= j < i ==> !((#[trigger] tags@[j]) is PartOfSpeech),
            found is None ==> pos_from(tags@, 0) == pos_from(tags@, i as int),
            found is Some ==> pos_from(tags@, 0) == found,
            found is Some ==> exists|j: int| 0 <= j < i && #[trigger] tags@[j] == ParsingComp::PartOfSpeech(found->0),
            found is Some ==> (conflict <==> exists|j: int| 0 <= j < i && (#[trigger] tags@[j]) is PartOfSpeech && tags@[j] != ParsingComp::PartOfSpeech(found->0)),
            found is None ==> !conflict,
        decreases tags.len() - i,
    {
        match tags[i] {
            ParsingComp::PartOfSpeech(p) => {
                match found {
                    None => {
                        found = Some(p);
                        assert(tags@[i as int] == ParsingComp::PartOfSpeech(p));
                    },
                    Some(q) => {
                        if p != q {
                            conflict = true;
                            assert(tags@[i as int] != ParsingComp::PartOfSpeech(q));
                        }
                    },
                }
            },
            _ => {},
        }
        i = i + 1;
    }
    proof {
        if found is Some {
            let f = found->0;
            let w = choose|j: int| 0 <= j < i && #[trigger] tags@[j] == ParsingComp::PartOfSpeech(f);
            if conflict {
                let k = choose|k: int| 0 <= k < i && (#[trigger] tags@[k]) is PartOfSpeech && tags@[k] != ParsingComp::PartOfSpeech(f);
                assert(tags@[k] != tags@[w]);
            } else {
                assert forall|a: int, b: int|
                    0 <= a < tags@.len() && 0 <= b < tags@.len() && (#[trigger] tags@[a]) is PartOfSpeech
                        && (#[trigger] tags@[b]) is PartOfSpeech implies tags@[a] == tags@[b] by {
                    assert(tags@[a] == ParsingComp::PartOfSpeech(f));
                    assert(tags@[b] == ParsingComp::PartOfSpeech(f));
                }
            }
        }
    }
    (found, conflict)
}

pub(crate) fn is_tagged(tags: &Vec<ParsingComp>, d: Dimension) -> (r: bool)
    ensures
        r == tagged(tags@, d),
{
    let mut i: usize = 0;
    while i < tags.len()
        invariant
            0 <= i <= tags.len(),
            forall|j: int|
                0 <= j < i ==> !match #[trigger] tags@[j] {
                    ParsingComp::Gender(_) => d == Dimension::Gender,
                    ParsingComp::Number(_) => d == Dimension::Number,
                    ParsingComp::Case(_) => d == Dimension::Case,
                    ParsingComp::Tense(_) => d == Dimension::Tense,
                    ParsingComp::Mood(_) => d == Dimension::Mood,
                    ParsingComp::Voice(_) => d == Dimension::Voice,
                    ParsingComp::Person(_) => d == Dimension::Person,
                    _ => false,
                },
        decreases tags.len() - i,
    {
        let hit = match tags[i] {
            ParsingComp::Gender(_) => d == Dimension::Gender,
            ParsingComp::Number(_) => d == Dimension::Number,
            ParsingComp::Case(_) => d == Dimension::Case,
            ParsingComp::Tense(_) => d == Dimension::Tense,
            ParsingComp::Mood(_) => d == Dimension::Mood,
            ParsingComp::Voice(_) => d == Dimension::Voice,
            ParsingComp::Person(_) => d == Dimension::Person,
            _ => false,
        };
        if hit {
            return true;
        }
        i = i + 1;
    }
    false
}

pub(crate) fn finite_mood_tagged(tags: &Vec<ParsingComp>) -> (r: bool)
    ensures
        r == has_finite_mood(tags@),
{
    let mut i: usize = 0;
    while i < tags.len()
        invariant
            0 <= i <= tags.len(),
            forall|j: int| 0 <= j < i ==> !((#[trigger] tags@[j]) is Mood && is_finite(tags@[j]->Mood_0)),
        decreases tags.len() - i,
    {
        match tags[i] {
            ParsingComp::Mood(m) => {
                if m != Mood::Infinitive && m != Mood::Participle {
                    return true;
                }
            },
            _ => {},
        }
        i = i + 1;
    }
    false
}

fn missing(pos: PartOfSpeech, tags: &Vec<ParsingComp>) -> (r: Option<Dimension>)
    ensures
        r == missing_dimension(pos, tags@),
{
    let noun = match pos {
        PartOfSpeech::Noun(_) | PartOfSpeech::Article(_) | PartOfSpeech::Pronoun(_)
        | PartOfSpeech::Quantifier | PartOfSpeech::Numeral(_) | PartOfSpeech::Adjective(_) => true,
        _ => false,
    };
    if noun {
        if !is_tagged(tags, Dimension::Gender) {
            Some(Dimension::Gender)
        } else if !is_tagged(tags, Dimension::Number) {
            Some(Dimension::Number)
        } else if !is_tagged(tags, Dimension::Case) {
            Some(Dimension::Case)
        } else {
            None
        }
    } else if pos == PartOfSpeech::Verb {
        if !is_tagged(tags, Dimension::Tense) {
            Some(Dimension::Tense)
        } else if !is_tagged(tags, Dimension::Mood) {
            Some(Dimension::Mood)
        } else if !is_tagged(tags, Dimension::Voice) {
            Some(Dimension::Voice)
        } else if finite_mood_tagged(tags) && !is_tagged(tags, Dimension::Number) {
            Some(Dimension::Number)
        } else if finite_mood_tagged(tags) && !is_tagged(tags, Dimension::Person) {
            Some(Dimension::Person)
        } else if has_tag(tags, ParsingComp::Mood(Mood::Participle)) && !is_tagged(
            tags,
            Dimension::Gender,
        ) {
            Some(Dimension::Gender)
        } else {
            None
        }
    } else {
        None
    }
}

fn fill_noun_slot(word: &ParsedWord, slot: &mut Option<NounInflectionGenders>)
    requires
        tagged(word.parsing@, Dimension::Gender),
        tagged(word.parsing@, Dimension::Number),
        tagged(word.parsing@, Dimension::Case),
    ensures
        noun_slot_inserted(*old(slot), *final(slot), word.parsing@, text_forms(word.text@)),
{
    fill_genders_at(word, slot);
}

fn fill_list(word: &ParsedWord, leaf: &mut Option<Vec<InflectionForm>>)
    ensures
        leaf_view(*final(leaf)) == leaf_after(leaf_view(*old(leaf)), true, text_forms(word.text@)),
{
    let mut v = match leaf.take() {
        Some(v) => v,
        None => Vec::new(),
    };
    assert(forms_view(Seq::<InflectionForm>::empty()) =~= Seq::<FormView>::empty());
    fill_forms(word, &mut v);
    *leaf = Some(v);
}

/// Inserts one word into the paradigm of part of speech `target`. A word
/// whose tags name another part of speech goes to that one's tree. On an
/// error the paradigm is left as it was.
pub fn insert_word(infl: &mut WordInflection, target: PartOfSpeech, word: &ParsedWord) -> (r: Result<(), BuildError>)
    ensures
        r is Err <==> word_error(target, word.parsing@) is Some,
        r is Err ==> r->Err_0 == word_error(target, word.parsing@)->0 && *final(infl) == *old(infl),
        r is Ok ==> word_inserted(
            *old(infl),
            *final(infl),
            effective_pos(target, word.parsing@),
            word.parsing@,
            verb_text_forms(word.text@),
            text_forms(word.text@),
        ),
{
    let (named, conflict) = first_pos(&word.parsing);
    if conflict {
        return Err(BuildError::ClassificationConflict);
    }
    let pos = match named {
        Some(p) => p,
        None => target,
    };
    if pos == PartOfSpeech::Interjection {
        return Err(BuildError::UnsupportedPartOfSpeech(PartOfSpeech::Interjection));
    }
    match missing(pos, &word.parsing) {
        Some(d) => {
            return Err(BuildError::MissingDimension(d));
        },
        None => {},
    }
    match pos {
        PartOfSpeech::Noun(_) => fill_noun_slot(word, &mut infl.noun),
        PartOfSpeech::Article(_) => fill_noun_slot(word, &mut infl.article),
        PartOfSpeech::Pronoun(_) => fill_noun_slot(word, &mut infl.pronoun),
        PartOfSpeech::Quantifier => fill_noun_slot(word, &mut infl.quantifier),
        PartOfSpeech::Numeral(_) => fill_noun_slot(word, &mut infl.numeral),
        PartOfSpeech::Adjective(d) => fill_adjective(word, d, &mut infl.adjective),
        PartOfSpeech::Verb => {
            let mut t = match infl.verb.take() {
                Some(t) => t,
                None => VerbInflectionTenses::empty(),
            };
            fill_tenses_in(word, &mut t);
            infl.verb = Some(t);
        },
        PartOfSpeech::Adverb => fill_list(word, &mut infl.adverb),
        PartOfSpeech::Particle => fill_list(word, &mut infl.particle),
        PartOfSpeech::Preposition => fill_list(word, &mut infl.preposition),
        PartOfSpeech::Interjection => {},
    }
    Ok(())
}

/// Inserts the word under the degree `d` of an adjective's paradigm. A
/// word without a gender, a number or a case tag is dropped: the paradigm
/// is left as it was.
pub fn fill_adjective(word: &ParsedWord, d: Adjective, slot: &mut Option<WordAdjective>)
    ensures
        !(tagged(word.parsing@, Dimension::Gender) && tagged(word.parsing@, Dimension::Number)
            && tagged(word.parsing@, Dimension::Case)) ==> *final(slot) == *old(slot),
        tagged(word.parsing@, Dimension::Gender) && tagged(word.parsing@, Dimension::Number)
            && tagged(word.parsing@, Dimension::Case) ==> {
            &&& (*final(slot)) is Some
            &&& forall|e: Adjective|
                e != d ==> #[trigger] (*final(slot))->0.branch(e) == (*old(slot)).unwrap_or(
                    WordAdjective::spec_empty(),
                ).branch(e)
            &&& noun_slot_inserted(
                (*old(slot)).unwrap_or(WordAdjective::spec_empty()).branch(d),
                (*final(slot))->0.branch(d),
                word.parsing@,
                text_forms(word.text@),
            )
        },
{
    if !(is_tagged(&word.parsing, Dimension::Gender) && is_tagged(&word.parsing, Dimension::Number)
        && is_tagged(&word.parsing, Dimension::Case)) {
        return;
    }
    let mut a = match slot.take() {
        Some(a) => a,
        None => WordAdjective::empty(),
    };
    match d {
        Adjective::Positive => fill_noun_slot(word, &mut a.positive),
        Adjective::Comparative => fill_noun_slot(word, &mut a.comparative),
        Adjective::Superlative => fill_noun_slot(word, &mut a.superlative),
    }
    *slot = Some(a);
}

/// What inserting a word does to a paradigm: nothing where the word is set
/// aside, the insertion otherwise.
pub open spec fn word_step(
    old: WordInflection,
    new: WordInflection,
    target: PartOfSpeech,
    tags: Seq<ParsingComp>,
    text: Seq<char>,
) -> bool {
    match word_error(target, tags) {
        Some(_) => new == old,
        None => word_inserted(
            old,
            new,
            effective_pos(target, tags),
            tags,
            verb_text_forms(text),
            text_forms(text),
        ),
    }
}

/// The tags word `k` is inserted with: its own, then the table-wide ones.
pub open spec fn word_tags(words: Seq<ParsedWord>, base: Seq<ParsingComp>, k: int) -> Seq<ParsingComp> {
    words[k].parsing@ + base
}

/// `chain` is the paradigm after each of the words in turn.
pub open spec fn built_by(
    chain: Seq<WordInflection>,
    target: PartOfSpeech,
    base: Seq<ParsingComp>,
    words: Seq<ParsedWord>,
    n: int,
) -> bool {
    &&& chain.len() == n + 1
    &&& forall|k: int|
        0 <= k < n ==> #[trigger] word_step(chain[k], chain[k + 1], target, word_tags(words, base, k), words[k].text@)
}

/// The words among the first `n` that are set aside, with their errors.
pub open spec fn set_aside(
    target: PartOfSpeech,
    base: Seq<ParsingComp>,
    words: Seq<ParsedWord>,
    n: int,
) -> Seq<(usize, BuildError)>
    decreases n,
{
    if n <= 0 {
        Seq::empty()
    } else {
        let rest = set_aside(target, base, words, n - 1);
        match word_error(target, word_tags(words, base, n - 1)) {
            Some(e) => rest.push(((n - 1) as usize, e)),
            None => rest,
        }
    }
}

fn with_tags(word: &ParsedWord, base: &Vec<ParsingComp>) -> (r: ParsedWord)
    ensures
        r.text@ == word.text@,
        r.parsing@ == word.parsing@ + base@,
{
    let mut tags: Vec<ParsingComp> = Vec::new();
    let mut i: usize = 0;
    while i < word.parsing.len()
        invariant
            0 <= i <= word.parsing.len(),
            tags@ == word.parsing@.subrange(0, i as int),
        decreases word.parsing.len() - i,
    {
        tags.push(word.parsing[i]);
        assert(word.parsing@.subrange(0, i + 1) =~= word.parsing@.subrange(0, i as int).push(word.parsing@[i as int]));
        i = i + 1;
    }
    let mut j: usize = 0;
    while j < base.len()
        invariant
            0 <= j <= base.len(),
            i == word.parsing.len(),
            tags@ == word.parsing@.subrange(0, i as int) + base@.subrange(0, j as int),
        decreases base.len() - j,
    {
        tags.push(base[j]);
        assert(base@.subrange(0, j + 1) =~= base@.subrange(0, j as int).push(base@[j as int]));
        j = j + 1;
    }
    assert(word.parsing@.subrange(0, i as int) =~= word.parsing@);
    assert(base@.subrange(0, j as int) =~= base@);
    ParsedWord { text: word.text.clone(), parsing: tags }
}

/// Builds the paradigm of part of speech `target` from the words of one
/// table, each with the table-wide tags `base` added. The paradigm carries
/// the dialects the words name. Words that are set aside are returned with
/// their index and error; the others are inserted in order.
pub fn parsed_words_to_inflection(
    target: PartOfSpeech,
    base: &Vec<ParsingComp>,
    words: &Vec<ParsedWord>,
) -> (r: Result<(WordInflection, Vec<(usize, BuildError)>), BuildError>)
    ensures
        r is Err <==> target == PartOfSpeech::Interjection,
        r is Err ==> r->Err_0 == BuildError::UnsupportedPartOfSpeech(target),
        r is Ok ==> {
            &&& r->Ok_0.1@ == set_aside(target, base@, words@, words@.len() as int)
            &&& exists|chain: Seq<WordInflection>|
                #[trigger] built_by(chain, target, base@, words@, words@.len() as int)
                    && chain[0] == WordInflection::spec_empty(chain[0].dialects) && chain[0].dialects@
                    == words_dialects(words@) && chain.last() == r->Ok_0.0
        },
{
    if target == PartOfSpeech::Interjection {
        return Err(BuildError::UnsupportedPartOfSpeech(target));
    }
    let dialects = get_words_dialects(words);
    let mut infl = WordInflection::empty(dialects);
    let ghost first = infl;
    let ghost mut chain: Seq<WordInflection> = seq![infl];
    let mut errors: Vec<(usize, BuildError)> = Vec::new();
    let mut i: usize = 0;
    while i < words.len()
        invariant
            0 <= i <= words.len(),
            built_by(chain, target, base@, words@, i as int),
            chain[0] == first,
            first == WordInflection::spec_empty(first.dialects),
            first.dialects@ == words_dialects(words@),
            chain.last() == infl,
            errors@ == set_aside(target, base@, words@, i as int),
        decreases words.len() - i,
    {
        let w = with_tags(&words[i], base);
        assert(w.parsing@ == word_tags(words@, base@, i as int));
        let ghost before = infl;
        match insert_word(&mut infl, target, &w) {
            Ok(()) => {},
            Err(e) => {
                errors.push((i, e));
            },
        }
        proof {
            let c0 = chain;
            chain = chain.push(infl);
            assert(word_step(before, infl, target, word_tags(words@, base@, i as int), words@[i as int].text@));
            assert forall|k: int| 0 <= k < i + 1 implies #[trigger] word_step(chain[k], chain[k + 1], target, word_tags(words@, base@, k), words@[k].text@) by {
                if k < i {
                    assert(chain[k] == c0[k]);
                    assert(chain[k + 1] == c0[k + 1]);
                }
            }
        }
        i = i + 1;
    }
    assert(built_by(chain, target, base@, words@, words@.len() as int));
    Ok((infl, errors))
}

/// Some word is tagged with dialect `d`.
pub open spec fn names_dialect(words: Seq<ParsedWord>, d: Dialect) -> bool {
    exists|k: int| 0 <= k < words.len() && tag_in(#[trigger] words[k].parsing@, ParsingComp::Dialect(d))
}

/// The dialects the words name, each once, in the order of `Dialect`.
pub open spec fn words_dialects(words: Seq<ParsedWord>) -> Seq<Dialect> {
    all_dialects_spec().filter(|d: Dialect| names_dialect(words, d))
}

pub open spec fn all_dialects_spec() -> Seq<Dialect> {
    seq![
        Dialect::Attic,
        Dialect::Koine,
        Dialect::Epic,
        Dialect::Laconian,
        Dialect::Doric,
        Dialect::Ionic,
        Dialect::Aeolic,
        Dialect::Homeric,
        Dialect::Arcadocypriot,
        Dialect::Cretan,
        Dialect::Macedonian,
    ]
}

fn all_dialects() -> (r: Vec<Dialect>)
    ensures
        r@ == all_dialects_spec(),
{
    let r = vec![
        Dialect::Attic,
        Dialect::Koine,
        Dialect::Epic,
        Dialect::Laconian,
        Dialect::Doric,
        Dialect::Ionic,
        Dialect::Aeolic,
        Dialect::Homeric,
        Dialect::Arcadocypriot,
        Dialect::Cretan,
        Dialect::Macedonian,
    ];
    assert(r@ =~= all_dialects_spec());
    r
}

fn any_word_has(words: &Vec<ParsedWord>, t: ParsingComp) -> (r: bool)
    ensures
        r == exists|k: int| 0 <= k < words@.len() && tag_in(#[trigger] words@[k].parsing@, t),
{
    let mut k: usize = 0;
    while k < words.len()
        invariant
            0 <= k <= words.len(),
            forall|j: int| 0 <= j < k ==> !tag_in(#[trigger] words@[j].parsing@, t),
        decreases words.len() - k,
    {
        if has_tag(&words[k].parsing, t) {
            return true;
        }
        k = k + 1;
    }
    false
}

/// The dialects the words name, each once, in the order of `Dialect`.
pub fn get_words_dialects(words: &Vec<ParsedWord>) -> (r: Vec<Dialect>)
    ensures
        r@ == words_dialects(words@),
{
    let all = all_dialects();
    let mut out: Vec<Dialect> = Vec::new();
    let mut i: usize = 0;
    while i < all.len()
        invariant
            0 <= i <= all.len(),
            all@ == all_dialects_spec(),
            out@ == all@.subrange(0, i as int).filter(|d: Dialect| names_dialect(words@, d)),
        decreases all.len() - i,
    {
        let d = all[i];
        let ghost pre = all@.subrange(0, i as int);
        assert(all@.subrange(0, i + 1) =~= pre.push(d));
        proof {
            pre.lemma_filter_push(d, |d: Dialect| names_dialect(words@, d));
        }
        if any_word_has(words, ParsingComp::Dialect(d)) {
            out.push(d);
        }
        i = i + 1;
    }
    assert(all@.subrange(0, all@.len() as int) =~= all@);
    out
}

/// The tenses among `tags`, in order.
pub open spec fn tenses_in(tags: Seq<ParsingComp>) -> Seq<Tense>
    decreases tags.len(),
{
    if tags.len() == 0 {
        Seq::empty()
    } else {
        tenses_in(tags.drop_last()) + match tags.last() {
            ParsingComp::Tense(t) => seq![t],
            _ => Seq::empty(),
        }
    }
}

/// The tenses the first `n` words name, word by word, in order.
pub open spec fn word_tenses(words: Seq<ParsedWord>, n: int) -> Seq<Tense>
    decreases n,
{
    if n <= 0 {
        Seq::empty()
    } else {
        word_tenses(words, n - 1) + tenses_in(words[n - 1].parsing@)
    }
}

/// `s` with every repetition dropped, each element where it first appears.
pub open spec fn first_each(s: Seq<Tense>) -> Seq<Tense>
    decreases s.len(),
{
    if s.len() == 0 {
        Seq::empty()
    } else {
        let r = first_each(s.drop_last());
        if r.contains(s.last()) {
            r
        } else {
            r.push(s.last())
        }
    }
}

/// The tenses the words name, each once, in the order they first appear.
pub fn get_words_tenses(words: &Vec<ParsedWord>) -> (r: Vec<Tense>)
    ensures
        r@ == first_each(word_tenses(words@, words@.len() as int)),
{
    let mut out: Vec<Tense> = Vec::new();
    let mut k: usize = 0;
    while k < words.len()
        invariant
            0 <= k <= words.len(),
            out@ == first_each(word_tenses(words@, k as int)),
        decreases words.len() - k,
    {
        let tags = &words[k].parsing;
        let ghost base = word_tenses(words@, k as int);
        let mut i: usize = 0;
        assert(base + tenses_in(tags@.subrange(0, 0)) =~= base);
        while i < tags.len()
            invariant
                0 <= i <= tags.len(),
                0 <= k < words.len(),
                tags == words@[k as int].parsing,
                base == word_tenses(words@, k as int),
                out@ == first_each(base + tenses_in(tags@.subrange(0, i as int))),
            decreases tags.len() - i,
        {
            let ghost pre = base + tenses_in(tags@.subrange(0, i as int));
            assert(tags@.subrange(0, i + 1).drop_last() =~= tags@.subrange(0, i as int));
            assert(tags@.subrange(0, i + 1).last() == tags@[i as int]);
            match tags[i] {
                ParsingComp::Tense(t) => {
                    let ghost next = base + tenses_in(tags@.subrange(0, i + 1));
                    assert(next =~= pre.push(t));
                    assert(next.drop_last() =~= pre);
                    let mut seen = false;
                    let mut j: usize = 0;
                    while j < out.len()
                        invariant
                            0 <= j <= out.len(),
                            seen == exists|m: int| 0 <= m < j && out@[m] == t,
                        decreases out.len() - j,
                    {
                        if out[j] == t {
                            seen = true;
                        }
                        j = j + 1;
                    }
                    proof {
                        if seen {
                            let m = choose|m: int| 0 <= m < out@.len() && out@[m] == t;
                            assert(out@.contains(t));
                        } else {
                            assert(!out@.contains(t));
                        }
                    }
                    if !seen {
                        out.push(t);
                    }
                },
                _ => {
                    assert(base + tenses_in(tags@.subrange(0, i + 1)) =~= pre);
                },
            }
            i = i + 1;
        }
        assert(tags@.subrange(0, tags@.len() as int) =~= tags@);
        k = k + 1;
    }
    out
}

/// `t` with the branch of `tense` set to `th`.
pub open spec fn with_tense(t: VerbInflectionTenses, tense: Tense, th: VerbInflectionThemes) -> VerbInflectionTenses {
    match tense {
        Tense::Present => VerbInflectionTenses { present: Some(th), ..t },
        Tense::Imperfect => VerbInflectionTenses { imperfect: Some(th), ..t },
        Tense::Future => VerbInflectionTenses { future: Some(th), ..t },
        Tense::FuturePerfect => VerbInflectionTenses { future_perfect: Some(th), ..t },
        Tense::Aorist => VerbInflectionTenses { aorist: Some(th), ..t },
        Tense::Aorist2nd => VerbInflectionTenses { aorist_2nd: Some(th), ..t },
        Tense::Perfect => VerbInflectionTenses { perfect: Some(th), ..t },
        Tense::Perfect2nd => VerbInflectionTenses { perfect_2nd: Some(th), ..t },
        Tense::Pluperfect => VerbInflectionTenses { pluperfect: Some(th), ..t },
    }
}

/// Whether the paradigm has a branch for `tense`.
pub open spec fn has_tense(w: WordInflection, tense: Tense) -> bool {
    w.verb is Some && w.verb->0.branch(tense) is Some
}

/// Every dialect of `a` is among `b`.
pub open spec fn dialects_within(a: Seq<Dialect>, b: Seq<Dialect>) -> bool {
    forall|i: int| 0 <= i < a.len() ==> b.contains(#[trigger] a[i])
}

/// The paradigm can take a table for `tense` in `dialects`: it lacks the
/// tense, and it is for the same set of dialects.
pub open spec fn can_take(w: WordInflection, tense: Tense, dialects: Seq<Dialect>) -> bool {
    !has_tense(w, tense) && dialects_within(w.dialects@, dialects) && dialects_within(
        dialects,
        w.dialects@,
    )
}

/// The first paradigm from position `i` on that can take the table.
pub open spec fn first_taker(ws: Seq<WordInflection>, tense: Tense, dialects: Seq<Dialect>, i: int) -> Option<int>
    decreases ws.len() - i,
{
    if i < 0 || i >= ws.len() {
        None
    } else if can_take(ws[i], tense, dialects) {
        Some(i)
    } else {
        first_taker(ws, tense, dialects, i + 1)
    }
}

impl WordInflection {
    /// Whether the paradigm has a branch for `tense`.
    pub fn grab_tense_field(&self, tense: Tense) -> (r: bool)
        ensures
            r == has_tense(*self, tense),
    {
        match &self.verb {
            None => false,
            Some(v) => match tense {
                Tense::Present => v.present.is_some(),
                Tense::Imperfect => v.imperfect.is_some(),
                Tense::Future => v.future.is_some(),
                Tense::FuturePerfect => v.future_perfect.is_some(),
                Tense::Aorist => v.aorist.is_some(),
                Tense::Aorist2nd => v.aorist_2nd.is_some(),
                Tense::Perfect => v.perfect.is_some(),
                Tense::Perfect2nd => v.perfect_2nd.is_some(),
                Tense::Pluperfect => v.pluperfect.is_some(),
            },
        }
    }

    /// Removes and returns the branch of `tense`, if any.
    pub fn take_tense_field(&mut self, tense: Tense) -> (r: Option<VerbInflectionThemes>)
        ensures
            r == (if old(self).verb is Some {
                old(self).verb->0.branch(tense)
            } else {
                None
            }),
            *final(self) == (WordInflection { verb: final(self).verb, ..*old(self) }),
            final(self).verb is Some <==> old(self).verb is Some,
            final(self).verb is Some ==> final(self).verb->0.branch(tense) is None,
            final(self).verb is Some ==> forall|t: Tense|
                t != tense ==> #[trigger] final(self).verb->0.branch(t) == old(self).verb->0.branch(t),
    {
        match &mut self.verb {
            None => None,
            Some(v) => match tense {
                Tense::Present => v.present.take(),
                Tense::Imperfect => v.imperfect.take(),
                Tense::Future => v.future.take(),
                Tense::FuturePerfect => v.future_perfect.take(),
                Tense::Aorist => v.aorist.take(),
                Tense::Aorist2nd => v.aorist_2nd.take(),
                Tense::Perfect => v.perfect.take(),
                Tense::Perfect2nd => v.perfect_2nd.take(),
                Tense::Pluperfect => v.pluperfect.take(),
            },
        }
    }

    /// Sets the branch of `tense` to `value`, creating the verb tree if absent.
    pub fn set_tense_field(&mut self, tense: Tense, value: VerbInflectionThemes)
        ensures
            *final(self) == (WordInflection {
                verb: Some(
                    with_tense(
                        old(self).verb.unwrap_or(VerbInflectionTenses::spec_empty()),
                        tense,
                        value,
                    ),
                ),
                ..*old(self)
            }),
    {
        let mut t = match self.verb.take() {
            Some(t) => t,
            None => VerbInflectionTenses::empty(),
        };
        match tense {
            Tense::Present => t.present = Some(value),
            Tense::Imperfect => t.imperfect = Some(value),
            Tense::Future => t.future = Some(value),
            Tense::FuturePerfect => t.future_perfect = Some(value),
            Tense::Aorist => t.aorist = Some(value),
            Tense::Aorist2nd => t.aorist_2nd = Some(value),
            Tense::Perfect => t.perfect = Some(value),
            Tense::Perfect2nd => t.perfect_2nd = Some(value),
            Tense::Pluperfect => t.pluperfect = Some(value),
        }
        self.verb = Some(t);
    }
}

fn within(a: &Vec<Dialect>, b: &Vec<Dialect>) -> (r: bool)
    ensures
        r == dialects_within(a@, b@),
{
    let mut i: usize = 0;
    while i < a.len()
        invariant
            0 <= i <= a.len(),
            forall|k: int| 0 <= k < i ==> b@.contains(#[trigger] a@[k]),
        decreases a.len() - i,
    {
        let mut found = false;
        let mut j: usize = 0;
        while j < b.len()
            invariant
                0 <= j <= b.len(),
                0 <= i < a.len(),
                found == exists|m: int| 0 <= m < j && b@[m] == a@[i as int],
            decreases b.len() - j,
        {
            if b[j] == a[i] {
                found = true;
            }
            j = j + 1;
        }
        if !found {
            assert(!b@.contains(a@[i as int]));
            return false;
        }
        i = i + 1;
    }
    true
}

/// Files one table's verb paradigm for `tense`, in the table's `dialects`,
/// among a lemma's paradigms: into the first that lacks the tense and is
/// for the same set of dialects, else into a new paradigm for those
/// dialects.
pub fn place_tense(
    inflections: &mut Vec<WordInflection>,
    dialects: Vec<Dialect>,
    tense: Tense,
    value: VerbInflectionThemes,
)
    ensures
        match first_taker(old(inflections)@, tense, dialects@, 0) {
            Some(j) => final(inflections)@ == old(inflections)@.update(
                j,
                WordInflection {
                    verb: Some(
                        with_tense(
                            old(inflections)@[j].verb.unwrap_or(VerbInflectionTenses::spec_empty()),
                            tense,
                            value,
                        ),
                    ),
                    ..old(inflections)@[j]
                },
            ),
            None => final(inflections)@ == old(inflections)@.push(
                WordInflection {
                    verb: Some(with_tense(VerbInflectionTenses::spec_empty(), tense, value)),
                    ..WordInflection::spec_empty(dialects)
                },
            ),
        },
{
    let mut i: usize = 0;
    while i < inflections.len()
        invariant
            0 <= i <= inflections.len(),
            inflections@ == old(inflections)@,
            first_taker(inflections@, tense, dialects@, 0) == first_taker(inflections@, tense, dialects@, i as int),
        decreases inflections.len() - i,
    {
        if !inflections[i].grab_tense_field(tense) && within(&inflections[i].dialects, &dialects)
            && within(&dialects, &inflections[i].dialects) {
            let ghost o = inflections@;
            assert(first_taker(o, tense, dialects@, i as int) == Some(i as int));
            let mut w = inflections.remove(i);
            w.set_tense_field(tense, value);
            inflections.insert(i, w);
            assert(inflections@ =~= o.update(i as int, w));
            return;
        }
        i = i + 1;
    }
    let mut w = WordInflection::empty(dialects);
    w.set_tense_field(tense, value);
    inflections.push(w);
}

} // verus!
