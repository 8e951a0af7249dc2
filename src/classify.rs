//! Classifying header and title text into grammatical tags, by a fixed
//! table of patterns.
use vstd::prelude::*;
use crate::grammar::{
    Adjective, Case, Contraction, DeclensionType, Dialect, Gender, Mood, Number, PartOfSpeech, Person,
    Tense, Theme, Voice,
};
use crate::text::chars_of;

verus! {

/// One grammatical tag that a header or a title can carry.
#[derive(Debug, PartialEq, Eq, Structural, Clone, Copy, Hash, PartialOrd, Ord)]
pub enum ParsingComp {
    Number(Number),
    Case(Case),
    Gender(Gender),
    Declension(DeclensionType),
    Dialect(Dialect),
    Mood(Mood),
    Tense(Tense),
    Voice(Voice),
    Person(Person),
    Contraction(Contraction),
    PartOfSpeech(PartOfSpeech),
    Theme(Theme),
}

impl ParsingComp {
    pub fn is_number(&self) -> (r: bool)
        ensures
            r == (*self is Number),
    {
        matches!(self, ParsingComp::Number(_))
    }

    pub fn is_case(&self) -> (r: bool)
        ensures
            r == (*self is Case),
    {
        matches!(self, ParsingComp::Case(_))
    }

    pub fn is_gender(&self) -> (r: bool)
        ensures
            r == (*self is Gender),
    {
        matches!(self, ParsingComp::Gender(_))
    }
}

/// How a pattern is held against a text.
#[derive(Debug, PartialEq, Eq, Structural, Clone, Copy)]
pub enum MatchKind {
    Equals,
    Contains,
    Prefix,
    Suffix,
}

/// A classification rule: text that matches `pattern` carries `tag`.
#[derive(Debug, Clone, Copy)]
pub struct Rule {
    pub kind: MatchKind,
    pub pattern: &'static str,
    pub tag: ParsingComp,
}

impl Rule {
    pub open spec fn spec_view(self) -> (MatchKind, Seq<char>, ParsingComp) {
        (self.kind, self.pattern@, self.tag)
    }
}

pub open spec fn occurs_at(text: Seq<char>, pattern: Seq<char>, i: int) -> bool {
    0 <= i && i + pattern.len() <= text.len() && text.subrange(i, i + pattern.len()) == pattern
}

pub open spec fn pattern_matches(kind: MatchKind, pattern: Seq<char>, text: Seq<char>) -> bool {
    match kind {
        MatchKind::Equals => text == pattern,
        MatchKind::Contains => exists|i: int| #[trigger] occurs_at(text, pattern, i),
        MatchKind::Prefix => occurs_at(text, pattern, 0),
        MatchKind::Suffix => occurs_at(text, pattern, text.len() - pattern.len()),
    }
}

/// The tags of the rules that `text` matches, in the order of the rules.
pub open spec fn tags_by_rules(rules: Seq<(MatchKind, Seq<char>, ParsingComp)>, text: Seq<char>) -> Seq<
    ParsingComp,
>
    decreases rules.len(),
{
    if rules.len() == 0 {
        Seq::empty()
    } else {
        let rest = tags_by_rules(rules.drop_last(), text);
        let rule = rules.last();
        if pattern_matches(rule.0, rule.1, text) {
            rest.push(rule.2)
        } else {
            rest
        }
    }
}

/// The patterns that classify a header cell's lower-cased text.
pub open spec fn header_table() -> Seq<(MatchKind, Seq<char>, ParsingComp)> {
    seq![
        (MatchKind::Contains, "singular"@, ParsingComp::Number(Number::Singular)),
        (MatchKind::Contains, "dual"@, ParsingComp::Number(Number::Dual)),
        (MatchKind::Contains, "plural"@, ParsingComp::Number(Number::Plural)),
        (MatchKind::Contains, "nominative"@, ParsingComp::Case(Case::Nominative)),
        (MatchKind::Contains, "genitive"@, ParsingComp::Case(Case::Genitive)),
        (MatchKind::Contains, "dative"@, ParsingComp::Case(Case::Dative)),
        (MatchKind::Contains, "accusative"@, ParsingComp::Case(Case::Accusative)),
        (MatchKind::Contains, "vocative"@, ParsingComp::Case(Case::Vocative)),
        (MatchKind::Contains, "second declension"@, ParsingComp::Declension(DeclensionType::Second)),
        (MatchKind::Equals, "middle/passive"@, ParsingComp::Voice(Voice::Middle)),
        (MatchKind::Equals, "middle/passive"@, ParsingComp::Voice(Voice::Passive)),
        (MatchKind::Equals, "middle"@, ParsingComp::Voice(Voice::Middle)),
        (MatchKind::Equals, "passive"@, ParsingComp::Voice(Voice::Passive)),
        (MatchKind::Equals, "active"@, ParsingComp::Voice(Voice::Active)),
        (MatchKind::Equals, "participle"@, ParsingComp::Mood(Mood::Participle)),
        (MatchKind::Equals, "infinitive"@, ParsingComp::Mood(Mood::Infinitive)),
        (MatchKind::Equals, "indicative"@, ParsingComp::Mood(Mood::Indicative)),
        (MatchKind::Equals, "subjunctive"@, ParsingComp::Mood(Mood::Subjunctive)),
        (MatchKind::Equals, "optative"@, ParsingComp::Mood(Mood::Optative)),
        (MatchKind::Equals, "imperative"@, ParsingComp::Mood(Mood::Imperative)),
        (MatchKind::Equals, "first"@, ParsingComp::Person(Person::First)),
        (MatchKind::Equals, "1st"@, ParsingComp::Person(Person::First)),
        (MatchKind::Equals, "second"@, ParsingComp::Person(Person::Second)),
        (MatchKind::Equals, "2nd"@, ParsingComp::Person(Person::Second)),
        (MatchKind::Equals, "third"@, ParsingComp::Person(Person::Third)),
        (MatchKind::Equals, "3rd"@, ParsingComp::Person(Person::Third)),
        (MatchKind::Equals, "m"@, ParsingComp::Gender(Gender::Masculine)),
        (MatchKind::Equals, "masculine"@, ParsingComp::Gender(Gender::Masculine)),
        (MatchKind::Equals, "f"@, ParsingComp::Gender(Gender::Feminine)),
        (MatchKind::Equals, "feminine"@, ParsingComp::Gender(Gender::Feminine)),
        (MatchKind::Equals, "n"@, ParsingComp::Gender(Gender::Neuter)),
        (MatchKind::Equals, "neuter"@, ParsingComp::Gender(Gender::Neuter)),
        (MatchKind::Equals, "masculine / feminine"@, ParsingComp::Gender(Gender::Masculine)),
        (MatchKind::Equals, "masculine / feminine"@, ParsingComp::Gender(Gender::Feminine)),
        (MatchKind::Equals, "adverb"@, ParsingComp::PartOfSpeech(PartOfSpeech::Adverb)),
        (MatchKind::Equals, "comparative"@, ParsingComp::PartOfSpeech(PartOfSpeech::Adjective(Adjective::Comparative))),
        (MatchKind::Equals, "superlative"@, ParsingComp::PartOfSpeech(PartOfSpeech::Adjective(Adjective::Superlative))),
    ]
}

/// The patterns that classify a table's lower-cased title: the tense
/// prefix, the mood and voice it names, the contraction suffix and the
/// dialects it mentions.
pub open spec fn title_table() -> Seq<(MatchKind, Seq<char>, ParsingComp)> {
    seq![
        (MatchKind::Prefix, "present:"@, ParsingComp::Tense(Tense::Present)),
        (MatchKind::Prefix, "imperfect:"@, ParsingComp::Tense(Tense::Imperfect)),
        (MatchKind::Prefix, "future:"@, ParsingComp::Tense(Tense::Future)),
        (MatchKind::Prefix, "aorist:"@, ParsingComp::Tense(Tense::Aorist)),
        (MatchKind::Prefix, "perfect:"@, ParsingComp::Tense(Tense::Perfect)),
        (MatchKind::Prefix, "pluperfect:"@, ParsingComp::Tense(Tense::Pluperfect)),
        (MatchKind::Prefix, "future perfect:"@, ParsingComp::Tense(Tense::FuturePerfect)),
        (MatchKind::Contains, "indicative"@, ParsingComp::Mood(Mood::Indicative)),
        (MatchKind::Contains, "subjunctive"@, ParsingComp::Mood(Mood::Subjunctive)),
        (MatchKind::Contains, "optative"@, ParsingComp::Mood(Mood::Optative)),
        (MatchKind::Contains, "imperative"@, ParsingComp::Mood(Mood::Imperative)),
        (MatchKind::Contains, "active"@, ParsingComp::Voice(Voice::Active)),
        (MatchKind::Contains, "middle"@, ParsingComp::Voice(Voice::Middle)),
        (MatchKind::Contains, "passive"@, ParsingComp::Voice(Voice::Passive)),
        (MatchKind::Suffix, "(contracted)"@, ParsingComp::Contraction(Contraction::Contracted)),
        (MatchKind::Suffix, "(uncontracted)"@, ParsingComp::Contraction(Contraction::Uncontracted)),
        (MatchKind::Contains, "attic"@, ParsingComp::Dialect(Dialect::Attic)),
        (MatchKind::Contains, "koine"@, ParsingComp::Dialect(Dialect::Koine)),
        (MatchKind::Contains, "epic"@, ParsingComp::Dialect(Dialect::Epic)),
        (MatchKind::Contains, "laconian"@, ParsingComp::Dialect(Dialect::Laconian)),
        (MatchKind::Contains, "doric"@, ParsingComp::Dialect(Dialect::Doric)),
        (MatchKind::Contains, "ionic"@, ParsingComp::Dialect(Dialect::Ionic)),
        (MatchKind::Contains, "aeolic"@, ParsingComp::Dialect(Dialect::Aeolic)),
        (MatchKind::Contains, "homeric"@, ParsingComp::Dialect(Dialect::Homeric)),
        (MatchKind::Contains, "arcadocypriot"@, ParsingComp::Dialect(Dialect::Arcadocypriot)),
        (MatchKind::Contains, "cretan"@, ParsingComp::Dialect(Dialect::Cretan)),
        (MatchKind::Contains, "macedonian"@, ParsingComp::Dialect(Dialect::Macedonian)),
    ]
}

pub open spec fn header_tags(text: Seq<char>) -> Seq<ParsingComp> {
    tags_by_rules(header_table(), text)
}

pub open spec fn title_tags(text: Seq<char>) -> Seq<ParsingComp> {
    tags_by_rules(title_table(), text)
}

pub open spec fn rules_view(rules: Seq<Rule>) -> Seq<(MatchKind, Seq<char>, ParsingComp)> {
    rules.map_values(|r: Rule| r.spec_view())
}

fn rule(kind: MatchKind, pattern: &'static str, tag: ParsingComp) -> (r: Rule)
    ensures
        r.spec_view() == (kind, pattern@, tag),
{
    Rule { kind, pattern, tag }
}

/// The header rules as data.
pub fn header_rules() -> (r: Vec<Rule>)
    ensures
        rules_view(r@) == header_table(),
{
    let r = vec![
        rule(MatchKind::Contains, "singular", ParsingComp::Number(Number::Singular)),
        rule(MatchKind::Contains, "dual", ParsingComp::Number(Number::Dual)),
        rule(MatchKind::Contains, "plural", ParsingComp::Number(Number::Plural)),
        rule(MatchKind::Contains, "nominative", ParsingComp::Case(Case::Nominative)),
        rule(MatchKind::Contains, "genitive", ParsingComp::Case(Case::Genitive)),
        rule(MatchKind::Contains, "dative", ParsingComp::Case(Case::Dative)),
        rule(MatchKind::Contains, "accusative", ParsingComp::Case(Case::Accusative)),
        rule(MatchKind::Contains, "vocative", ParsingComp::Case(Case::Vocative)),
        rule(MatchKind::Contains, "second declension", ParsingComp::Declension(DeclensionType::Second)),
        rule(MatchKind::Equals, "middle/passive", ParsingComp::Voice(Voice::Middle)),
        rule(MatchKind::Equals, "middle/passive", ParsingComp::Voice(Voice::Passive)),
        rule(MatchKind::Equals, "middle", ParsingComp::Voice(Voice::Middle)),
        rule(MatchKind::Equals, "passive", ParsingComp::Voice(Voice::Passive)),
        rule(MatchKind::Equals, "active", ParsingComp::Voice(Voice::Active)),
        rule(MatchKind::Equals, "participle", ParsingComp::Mood(Mood::Participle)),
        rule(MatchKind::Equals, "infinitive", ParsingComp::Mood(Mood::Infinitive)),
        rule(MatchKind::Equals, "indicative", ParsingComp::Mood(Mood::Indicative)),
        rule(MatchKind::Equals, "subjunctive", ParsingComp::Mood(Mood::Subjunctive)),
        rule(MatchKind::Equals, "optative", ParsingComp::Mood(Mood::Optative)),
        rule(MatchKind::Equals, "imperative", ParsingComp::Mood(Mood::Imperative)),
        rule(MatchKind::Equals, "first", ParsingComp::Person(Person::First)),
        rule(MatchKind::Equals, "1st", ParsingComp::Person(Person::First)),
        rule(MatchKind::Equals, "second", ParsingComp::Person(Person::Second)),
        rule(MatchKind::Equals, "2nd", ParsingComp::Person(Person::Second)),
        rule(MatchKind::Equals, "third", ParsingComp::Person(Person::Third)),
        rule(MatchKind::Equals, "3rd", ParsingComp::Person(Person::Third)),
        rule(MatchKind::Equals, "m", ParsingComp::Gender(Gender::Masculine)),
        rule(MatchKind::Equals, "masculine", ParsingComp::Gender(Gender::Masculine)),
        rule(MatchKind::Equals, "f", ParsingComp::Gender(Gender::Feminine)),
        rule(MatchKind::Equals, "feminine", ParsingComp::Gender(Gender::Feminine)),
        rule(MatchKind::Equals, "n", ParsingComp::Gender(Gender::Neuter)),
        rule(MatchKind::Equals, "neuter", ParsingComp::Gender(Gender::Neuter)),
        rule(MatchKind::Equals, "masculine / feminine", ParsingComp::Gender(Gender::Masculine)),
        rule(MatchKind::Equals, "masculine / feminine", ParsingComp::Gender(Gender::Feminine)),
        rule(MatchKind::Equals, "adverb", ParsingComp::PartOfSpeech(PartOfSpeech::Adverb)),
        rule(MatchKind::Equals, "comparative", ParsingComp::PartOfSpeech(PartOfSpeech::Adjective(Adjective::Comparative))),
        rule(MatchKind::Equals, "superlative", ParsingComp::PartOfSpeech(PartOfSpeech::Adjective(Adjective::Superlative))),
    ];
    assert(rules_view(r@) =~= header_table());
    r
}

/// The title rules as data.
pub fn title_rules() -> (r: Vec<Rule>)
    ensures
        rules_view(r@) == title_table(),
{
    let r = vec![
        rule(MatchKind::Prefix, "present:", ParsingComp::Tense(Tense::Present)),
        rule(MatchKind::Prefix, "imperfect:", ParsingComp::Tense(Tense::Imperfect)),
        rule(MatchKind::Prefix, "future:", ParsingComp::Tense(Tense::Future)),
        rule(MatchKind::Prefix, "aorist:", ParsingComp::Tense(Tense::Aorist)),
        rule(MatchKind::Prefix, "perfect:", ParsingComp::Tense(Tense::Perfect)),
        rule(MatchKind::Prefix, "pluperfect:", ParsingComp::Tense(Tense::Pluperfect)),
        rule(MatchKind::Prefix, "future perfect:", ParsingComp::Tense(Tense::FuturePerfect)),
        rule(MatchKind::Contains, "indicative", ParsingComp::Mood(Mood::Indicative)),
        rule(MatchKind::Contains, "subjunctive", ParsingComp::Mood(Mood::Subjunctive)),
        rule(MatchKind::Contains, "optative", ParsingComp::Mood(Mood::Optative)),
        rule(MatchKind::Contains, "imperative", ParsingComp::Mood(Mood::Imperative)),
        rule(MatchKind::Contains, "active", ParsingComp::Voice(Voice::Active)),
        rule(MatchKind::Contains, "middle", ParsingComp::Voice(Voice::Middle)),
        rule(MatchKind::Contains, "passive", ParsingComp::Voice(Voice::Passive)),
        rule(MatchKind::Suffix, "(contracted)", ParsingComp::Contraction(Contraction::Contracted)),
        rule(MatchKind::Suffix, "(uncontracted)", ParsingComp::Contraction(Contraction::Uncontracted)),
        rule(MatchKind::Contains, "attic", ParsingComp::Dialect(Dialect::Attic)),
        rule(MatchKind::Contains, "koine", ParsingComp::Dialect(Dialect::Koine)),
        rule(MatchKind::Contains, "epic", ParsingComp::Dialect(Dialect::Epic)),
        rule(MatchKind::Contains, "laconian", ParsingComp::Dialect(Dialect::Laconian)),
        rule(MatchKind::Contains, "doric", ParsingComp::Dialect(Dialect::Doric)),
        rule(MatchKind::Contains, "ionic", ParsingComp::Dialect(Dialect::Ionic)),
        rule(MatchKind::Contains, "aeolic", ParsingComp::Dialect(Dialect::Aeolic)),
        rule(MatchKind::Contains, "homeric", ParsingComp::Dialect(Dialect::Homeric)),
        rule(MatchKind::Contains, "arcadocypriot", ParsingComp::Dialect(Dialect::Arcadocypriot)),
        rule(MatchKind::Contains, "cretan", ParsingComp::Dialect(Dialect::Cretan)),
        rule(MatchKind::Contains, "macedonian", ParsingComp::Dialect(Dialect::Macedonian)),
    ];
    assert(rules_view(r@) =~= title_table());
    r
}

/// Whether `pattern` occurs in `text` at position `i`.
fn occurs_at_exec(text: &Vec<char>, pattern: &Vec<char>, i: usize) -> (r: bool)
    ensures
        r == occurs_at(text@, pattern@, i as int),
{
    if i > text.len() || pattern.len() > text.len() - i {
        return false;
    }
    let mut j: usize = 0;
    while j < pattern.len()
        invariant
            i + pattern.len() <= text.len(),
            0 <= j <= pattern.len(),
            forall|k: int| 0 <= k < j ==> text@[i + k] == pattern@[k],
        decreases pattern.len() - j,
    {
        if text[i + j] != pattern[j] {
            assert(text@.subrange(i as int, i + pattern.len())[j as int] != pattern@[j as int]);
            return false;
        }
        j = j + 1;
    }
    assert(text@.subrange(i as int, i + pattern.len()) =~= pattern@);
    true
}

fn matches_exec(kind: MatchKind, pattern: &Vec<char>, text: &Vec<char>) -> (r: bool)
    ensures
        r == pattern_matches(kind, pattern@, text@),
{
    match kind {
        MatchKind::Equals => {
            if text.len() != pattern.len() {
                return false;
            }
            let r = occurs_at_exec(text, pattern, 0);
            proof {
                if text@ == pattern@ {
                    assert(text@.subrange(0, pattern@.len() as int) =~= text@);
                }
                if r {
                    assert(text@.subrange(0, pattern@.len() as int) =~= text@);
                }
            }
            r
        },
        MatchKind::Contains => {
            let mut i: usize = 0;
            while i < text.len()
                invariant
                    kind == MatchKind::Contains,
                    0 <= i <= text.len(),
                    forall|k: int| 0 <= k < i ==> !occurs_at(text@, pattern@, k),
                decreases text.len() - i,
            {
                if occurs_at_exec(text, pattern, i) {
                    assert(occurs_at(text@, pattern@, i as int));
                    return true;
                }
                i = i + 1;
            }
            let r = occurs_at_exec(text, pattern, i);
            proof {
                if r {
                    assert(occurs_at(text@, pattern@, i as int));
                } else {
                    assert forall|k: int| !occurs_at(text@, pattern@, k) by {
                        if 0 <= k < i {
                        } else if k == i {
                        }
                    }
                }
            }
            r
        },
        MatchKind::Prefix => occurs_at_exec(text, pattern, 0),
        MatchKind::Suffix => {
            if pattern.len() > text.len() {
                return false;
            }
            occurs_at_exec(text, pattern, text.len() - pattern.len())
        },
    }
}

/// The tags of the rules that `text` matches, in the order of the rules.
pub fn classify(rules: &Vec<Rule>, text: &str) -> (r: Vec<ParsingComp>)
    ensures
        r@ == tags_by_rules(rules_view(rules@), text@),
{
    let cs = chars_of(text);
    let mut out: Vec<ParsingComp> = Vec::new();
    let mut i: usize = 0;
    while i < rules.len()
        invariant
            0 <= i <= rules.len(),
            cs@ == text@,
            out@ == tags_by_rules(rules_view(rules@.subrange(0, i as int)), text@),
        decreases rules.len() - i,
    {
        let rl = rules[i];
        let pattern = chars_of(rl.pattern);
        let ghost pre = rules_view(rules@.subrange(0, i as int));
        let ghost next = rules_view(rules@.subrange(0, i + 1));
        assert(next.drop_last() =~= pre);
        assert(next.last() == rl.spec_view());
        if matches_exec(rl.kind, &pattern, &cs) {
            out.push(rl.tag);
        }
        i = i + 1;
    }
    assert(rules@.subrange(0, rules@.len() as int) =~= rules@);
    out
}

/// The tags a header cell's lower-cased, trimmed text carries.
pub fn classify_header(text: &str) -> (r: Vec<ParsingComp>)
    ensures
        r@ == header_tags(text@),
{
    classify(&header_rules(), text)
}

/// The tags a table's lower-cased, trimmed title carries.
pub fn classify_title(text: &str) -> (r: Vec<ParsingComp>)
    ensures
        r@ == title_tags(text@),
{
    classify(&title_rules(), text)
}

} // verus!
