//! Generating paradigms from a lemma by rule: first-declension nouns from
//! their ending, and the present of verbs in -ω.
use vstd::prelude::*;
use crate::grammar::{Case, Declension, DeclensionType, Gender, Number};
use crate::lexicon::{
    FormView, InflectionForm, NounInflectionCases, NounInflectionGenders, NounInflectionNumbers,
    VerbInflectionContractions, VerbInflectionMoods, VerbInflectionNumbers, VerbInflectionPersons,
    VerbInflectionTenses, VerbInflectionThemes, VerbInflectionVoices,
};
use crate::text::{chars_of, string_of};

verus! {

/// The first-declension patterns, by nominative ending.
#[derive(Debug, PartialEq, Eq, Structural, Clone, Copy)]
pub enum FirstDeclension {
    /// Feminine in -η.
    FemEta,
    /// Feminine in short -ᾰ.
    FemAlphaBreve,
    /// Feminine in long -ᾱ.
    FemAlphaMacron,
    /// Masculine in -ης.
    MasEtaS,
    /// Masculine in -ᾱς.
    MasAlphaS,
}

#[derive(Debug, PartialEq, Eq, Structural, Clone, Copy)]
pub enum InflectError {
    /// Only the first declension is generated.
    DeclensionType,
    /// The gender is absent, or has no first-declension pattern.
    Gender,
    /// The lemma's ending matches no pattern.
    Ending,
}

/// The ending of a first-declension pattern for a number and a case.
pub open spec fn first_ending(k: FirstDeclension, n: Number, c: Case) -> Seq<char> {
    match n {
        Number::Dual => match c {
            Case::Genitive | Case::Dative => "αιν"@,
            _ => "ᾱ"@,
        },
        Number::Plural => match c {
            Case::Nominative | Case::Vocative => "αι"@,
            Case::Accusative => "ᾱς"@,
            Case::Genitive => "ων"@,
            Case::Dative => "αις"@,
        },
        Number::Singular => match k {
            FirstDeclension::FemEta => match c {
                Case::Nominative => "η"@,
                Case::Vocative => "ης"@,
                Case::Accusative => "ην"@,
                Case::Genitive => "ης"@,
                Case::Dative => "ῃ"@,
            },
            FirstDeclension::FemAlphaBreve => match c {
                Case::Nominative => "ᾰ"@,
                Case::Vocative => "ᾰ"@,
                Case::Accusative => "ᾰν"@,
                Case::Genitive => "ᾱς"@,
                Case::Dative => "ᾳ"@,
            },
            FirstDeclension::FemAlphaMacron => match c {
                Case::Nominative => "ᾱ"@,
                Case::Vocative => "ᾱ"@,
                Case::Accusative => "ᾱν"@,
                Case::Genitive => "ᾱς"@,
                Case::Dative => "ᾳ"@,
            },
            FirstDeclension::MasEtaS => match c {
                Case::Nominative => "ης"@,
                Case::Vocative => "η"@,
                Case::Accusative => "ην"@,
                Case::Genitive => "ου"@,
                Case::Dative => "ῃ"@,
            },
            FirstDeclension::MasAlphaS => match c {
                Case::Nominative => "ᾱς"@,
                Case::Vocative => "ᾱ"@,
                Case::Accusative => "ᾱν"@,
                Case::Genitive => "ου"@,
                Case::Dative => "ᾳ"@,
            },
        },
    }
}

fn ending_str(k: FirstDeclension, n: Number, c: Case) -> (r: &'static str)
    ensures
        r@ == first_ending(k, n, c),
{
    match n {
        Number::Dual => match c {
            Case::Genitive | Case::Dative => "αιν",
            _ => "ᾱ",
        },
        Number::Plural => match c {
            Case::Nominative | Case::Vocative => "αι",
            Case::Accusative => "ᾱς",
            Case::Genitive => "ων",
            Case::Dative => "αις",
        },
        Number::Singular => match k {
            FirstDeclension::FemEta => match c {
                Case::Nominative => "η",
                Case::Vocative => "ης",
                Case::Accusative => "ην",
                Case::Genitive => "ης",
                Case::Dative => "ῃ",
            },
            FirstDeclension::FemAlphaBreve => match c {
                Case::Nominative => "ᾰ",
                Case::Vocative => "ᾰ",
                Case::Accusative => "ᾰν",
                Case::Genitive => "ᾱς",
                Case::Dative => "ᾳ",
            },
            FirstDeclension::FemAlphaMacron => match c {
                Case::Nominative => "ᾱ",
                Case::Vocative => "ᾱ",
                Case::Accusative => "ᾱν",
                Case::Genitive => "ᾱς",
                Case::Dative => "ᾳ",
            },
            FirstDeclension::MasEtaS => match c {
                Case::Nominative => "ης",
                Case::Vocative => "η",
                Case::Accusative => "ην",
                Case::Genitive => "ου",
                Case::Dative => "ῃ",
            },
            FirstDeclension::MasAlphaS => match c {
                Case::Nominative => "ᾱς",
                Case::Vocative => "ᾱ",
                Case::Accusative => "ᾱν",
                Case::Genitive => "ου",
                Case::Dative => "ᾳ",
            },
        },
    }
}

/// A generated form: the stem and ending joined, and the two as morphemes.
pub open spec fn joined(root: Seq<char>, ending: Seq<char>) -> FormView {
    (Some(root + ending), Some(seq![root, ending]))
}

/// Every number and case of `nums` holds the one form of `root` with its
/// pattern's ending.
pub open spec fn conjugated(nums: NounInflectionNumbers, root: Seq<char>, k: FirstDeclension) -> bool {
    forall|n: Number, c: Case|
        #[trigger] nums.branch(n) is Some && #[trigger] nums.branch(n)->0.leaf(c) == Some(
            seq![joined(root, first_ending(k, n, c))],
        )
}

fn form_of(root: &str, ending: &str) -> (r: Vec<InflectionForm>)
    ensures
        r@.len() == 1,
        r@[0].spec_view() == joined(root@, ending@),
{
    let whole = root.to_owned().concat(ending);
    let pieces = vec![root.to_owned(), ending.to_owned()];
    let f = InflectionForm { contracted: Some(whole), uncontracted: Some(pieces) };
    assert(pieces@.map_values(|s: String| s@) =~= seq![root@, ending@]);
    vec![f]
}

fn conjugate_inflection_cases(root: &str, k: FirstDeclension, n: Number) -> (r: NounInflectionCases)
    ensures
        forall|c: Case| #[trigger] r.leaf(c) == Some(seq![joined(root@, first_ending(k, n, c))]),
{
    let r = NounInflectionCases {
        nominative: Some(form_of(root, ending_str(k, n, Case::Nominative))),
        genitive: Some(form_of(root, ending_str(k, n, Case::Genitive))),
        dative: Some(form_of(root, ending_str(k, n, Case::Dative))),
        accusative: Some(form_of(root, ending_str(k, n, Case::Accusative))),
        vocative: Some(form_of(root, ending_str(k, n, Case::Vocative))),
    };
    assert forall|c: Case| #[trigger] r.leaf(c) == Some(seq![joined(root@, first_ending(k, n, c))]) by {
        match c {
            Case::Nominative => assert(crate::lexicon::forms_view(r.nominative->0@) =~= seq![joined(root@, first_ending(k, n, c))]),
            Case::Genitive => assert(crate::lexicon::forms_view(r.genitive->0@) =~= seq![joined(root@, first_ending(k, n, c))]),
            Case::Dative => assert(crate::lexicon::forms_view(r.dative->0@) =~= seq![joined(root@, first_ending(k, n, c))]),
            Case::Accusative => assert(crate::lexicon::forms_view(r.accusative->0@) =~= seq![joined(root@, first_ending(k, n, c))]),
            Case::Vocative => assert(crate::lexicon::forms_view(r.vocative->0@) =~= seq![joined(root@, first_ending(k, n, c))]),
        }
    }
    r
}

/// Every number and case of the stem `root` in pattern `k`.
pub fn conjugate(root: &str, k: FirstDeclension) -> (r: NounInflectionNumbers)
    ensures
        conjugated(r, root@, k),
{
    NounInflectionNumbers {
        singular: Some(conjugate_inflection_cases(root, k, Number::Singular)),
        dual: Some(conjugate_inflection_cases(root, k, Number::Dual)),
        plural: Some(conjugate_inflection_cases(root, k, Number::Plural)),
    }
}

/// `s` with every trailing repetition of `p` removed.
pub open spec fn trim_end(s: Seq<char>, p: Seq<char>) -> Seq<char>
    decreases s.len(),
{
    if p.len() > 0 && s.len() >= p.len() && s.subrange(s.len() - p.len(), s.len() as int) == p {
        trim_end(s.subrange(0, s.len() - p.len()), p)
    } else {
        s
    }
}

pub open spec fn ends_in(s: Seq<char>, p: Seq<char>) -> bool {
    s.len() >= p.len() && s.subrange(s.len() - p.len(), s.len() as int) == p
}

fn ends_in_exec(s: &Vec<char>, n: usize, p: &Vec<char>) -> (r: bool)
    requires
        n <= s@.len(),
    ensures
        r == ends_in(s@.subrange(0, n as int), p@),
{
    if p.len() > n {
        return false;
    }
    let start = n - p.len();
    let mut j: usize = 0;
    while j < p.len()
        invariant
            start + p@.len() == n,
            n <= s@.len(),
            0 <= j <= p.len(),
            forall|k: int| 0 <= k < j ==> s@[start + k] == p@[k],
        decreases p.len() - j,
    {
        if s[start + j] != p[j] {
            assert(s@.subrange(0, n as int).subrange(start as int, n as int)[j as int] != p@[j as int]);
            return false;
        }
        j = j + 1;
    }
    assert(s@.subrange(0, n as int).subrange(start as int, n as int) =~= p@);
    true
}

fn trim_end_exec(s: &str, p: &str) -> (r: String)
    ensures
        r@ == trim_end(s@, p@),
{
    let cs = chars_of(s);
    let ps = chars_of(p);
    let mut n: usize = cs.len();
    assert(cs@.subrange(0, n as int) =~= s@);
    while ps.len() > 0 && ends_in_exec(&cs, n, &ps)
        invariant
            n <= cs@.len(),
            ps@ == p@,
            cs@ == s@,
            trim_end(cs@.subrange(0, n as int), p@) == trim_end(s@, p@),
        decreases n,
    {
        assert(cs@.subrange(0, n as int).subrange(0, n - ps@.len()) =~= cs@.subrange(0, n - ps@.len()));
        n = n - ps.len();
    }
    let mut out: Vec<char> = Vec::new();
    let mut i: usize = 0;
    while i < n
        invariant
            n <= cs@.len(),
            0 <= i <= n,
            out@ == cs@.subrange(0, i as int),
        decreases n - i,
    {
        out.push(cs[i]);
        assert(cs@.subrange(0, i + 1) =~= cs@.subrange(0, i as int).push(cs@[i as int]));
        i = i + 1;
    }
    string_of(&out)
}

/// The feminine pattern a lemma's last letter selects, if any.
pub open spec fn feminine_pattern(lemma: Seq<char>) -> Option<FirstDeclension> {
    if lemma.len() == 0 {
        None
    } else if lemma.last() == 'η' {
        Some(FirstDeclension::FemEta)
    } else if lemma.last() == 'ᾱ' {
        Some(FirstDeclension::FemAlphaMacron)
    } else if lemma.last() == 'ᾰ' || lemma.last() == 'α' {
        Some(FirstDeclension::FemAlphaBreve)
    } else {
        None
    }
}

/// The masculine pattern a lemma's ending selects, and that ending.
pub open spec fn masculine_pattern(lemma: Seq<char>) -> Option<(FirstDeclension, Seq<char>)> {
    if ends_in(lemma, "ης"@) {
        Some((FirstDeclension::MasEtaS, "ης"@))
    } else if ends_in(lemma, "ᾱς"@) {
        Some((FirstDeclension::MasAlphaS, "ᾱς"@))
    } else if ends_in(lemma, "ας"@) {
        Some((FirstDeclension::MasAlphaS, "ας"@))
    } else {
        None
    }
}

/// The paradigm of a first-declension feminine.
pub fn inflect_1st_fem(lemma: &str) -> (r: Result<NounInflectionNumbers, InflectError>)
    ensures
        r is Ok <==> feminine_pattern(lemma@) is Some,
        r is Ok ==> conjugated(
            r->Ok_0,
            trim_end(lemma@, seq![lemma@.last()]),
            feminine_pattern(lemma@)->0,
        ),
        r is Err ==> r->Err_0 == InflectError::Ending,
{
    let cs = chars_of(lemma);
    if cs.len() == 0 {
        return Err(InflectError::Ending);
    }
    let last = cs[cs.len() - 1];
    let k = if last == 'η' {
        FirstDeclension::FemEta
    } else if last == 'ᾱ' {
        FirstDeclension::FemAlphaMacron
    } else if last == 'ᾰ' || last == 'α' {
        FirstDeclension::FemAlphaBreve
    } else {
        return Err(InflectError::Ending);
    };
    let one = vec![last];
    let ending = string_of(&one);
    assert(ending@ =~= seq![lemma@.last()]);
    let root = trim_end_exec(lemma, ending.as_str());
    Ok(conjugate(root.as_str(), k))
}

pub open spec fn masculine_kind(lemma: Seq<char>) -> FirstDeclension {
    let (k, _) = masculine_pattern(lemma)->0;
    k
}

pub open spec fn masculine_ending(lemma: Seq<char>) -> Seq<char> {
    let (_, e) = masculine_pattern(lemma)->0;
    e
}

/// The paradigm of a first-declension masculine.
pub fn inflect_1st_mas(lemma: &str) -> (r: Result<NounInflectionNumbers, InflectError>)
    ensures
        r is Ok <==> masculine_pattern(lemma@) is Some,
        r is Ok ==> conjugated(
            r->Ok_0,
            trim_end(lemma@, masculine_ending(lemma@)),
            masculine_kind(lemma@),
        ),
        r is Err ==> r->Err_0 == InflectError::Ending,
{
    let cs = chars_of(lemma);
    let (k, ending) = if ends_in_exec(&cs, cs.len(), &chars_of("ης")) {
        (FirstDeclension::MasEtaS, "ης")
    } else if ends_in_exec(&cs, cs.len(), &chars_of("ᾱς")) {
        (FirstDeclension::MasAlphaS, "ᾱς")
    } else if ends_in_exec(&cs, cs.len(), &chars_of("ας")) {
        (FirstDeclension::MasAlphaS, "ας")
    } else {
        assert(cs@.subrange(0, cs@.len() as int) =~= lemma@);
        return Err(InflectError::Ending);
    };
    assert(cs@.subrange(0, cs@.len() as int) =~= lemma@);
    let root = trim_end_exec(lemma, ending);
    Ok(conjugate(root.as_str(), k))
}

/// Generates a noun's paradigm from its lemma, its gender and its
/// declension type; only the first declension is known.
pub fn inflect(lemma: &str, declension: &Declension) -> (r: Result<NounInflectionGenders, InflectError>)
    ensures
        declension.decl_type != Some(DeclensionType::First) ==> r == Err::<NounInflectionGenders, InflectError>(InflectError::DeclensionType),
        declension.decl_type == Some(DeclensionType::First) && (declension.gender is None || declension.gender == Some(Gender::Neuter))
            ==> r == Err::<NounInflectionGenders, InflectError>(InflectError::Gender),
        declension.decl_type == Some(DeclensionType::First) && declension.gender == Some(Gender::Feminine) ==> {
            &&& (r is Ok <==> feminine_pattern(lemma@) is Some)
            &&& r is Ok ==> r->Ok_0.masculine is None && r->Ok_0.neuter is None && r->Ok_0.feminine is Some
                && conjugated(r->Ok_0.feminine->0, trim_end(lemma@, seq![lemma@.last()]), feminine_pattern(lemma@)->0)
        },
        declension.decl_type == Some(DeclensionType::First) && declension.gender == Some(Gender::Masculine) ==> {
            &&& (r is Ok <==> masculine_pattern(lemma@) is Some)
            &&& r is Ok ==> r->Ok_0.feminine is None && r->Ok_0.neuter is None && r->Ok_0.masculine is Some
                && conjugated(r->Ok_0.masculine->0, trim_end(lemma@, masculine_ending(lemma@)), masculine_kind(lemma@))
        },
{
    if declension.decl_type != Some(DeclensionType::First) {
        return Err(InflectError::DeclensionType);
    }
    match declension.gender {
        Some(Gender::Feminine) => {
            let n = inflect_1st_fem(lemma)?;
            Ok(NounInflectionGenders { masculine: None, feminine: Some(n), neuter: None })
        },
        Some(Gender::Masculine) => {
            let n = inflect_1st_mas(lemma)?;
            Ok(NounInflectionGenders { masculine: Some(n), feminine: None, neuter: None })
        },
        _ => Err(InflectError::Gender),
    }
}

/// `ω`, `α`, `ε`, `η`, `ι`, `ο`, `υ` once stripped of diacritics.
pub open spec fn is_vowel_spec(c: char) -> bool {
    let b = crate::fuzzy::bare(c);
    b == 'α' || b == 'ε' || b == 'η' || b == 'ι' || b == 'ο' || b == 'υ' || b == 'ω'
}

/// Whether `c` is a Greek vowel, whatever its diacritics.
pub fn is_vowel(c: char) -> (r: bool)
    ensures
        r == is_vowel_spec(c),
{
    let b = crate::fuzzy::bare_char(c);
    b == 'α' || b == 'ε' || b == 'η' || b == 'ι' || b == 'ο' || b == 'υ' || b == 'ω'
}

/// The present indicative active first singular of a verb in -ω, as stem
/// and ending, and no other branch.
pub open spec fn present_first_singular(t: VerbInflectionTenses, stem: Seq<char>) -> bool {
    &&& t == VerbInflectionTenses { present: t.present, ..VerbInflectionTenses::spec_empty() }
    &&& t.present is Some
    &&& t.present->0.athematic is None
    &&& t.present->0.thematic->0.uncontracted is None
    &&& t.present->0.thematic->0.contracted->0 == (VerbInflectionMoods {
        indicative: t.present->0.thematic->0.contracted->0.indicative,
        ..VerbInflectionMoods::spec_empty()
    })
    &&& t.present->0.thematic->0.contracted->0.indicative->0.middle is None
    &&& t.present->0.thematic->0.contracted->0.indicative->0.passive is None
    &&& t.present->0.thematic->0.contracted->0.indicative->0.active->0.plural is None
    &&& t.present->0.thematic->0.contracted->0.indicative->0.active->0.dual is None
    &&& t.present->0.thematic->0.contracted->0.indicative->0.active->0.singular->0.second is None
    &&& t.present->0.thematic->0.contracted->0.indicative->0.active->0.singular->0.third is None
    &&& t.present->0.thematic is Some
    &&& t.present->0.thematic->0.contracted is Some
    &&& t.present->0.thematic->0.contracted->0.indicative is Some
    &&& t.present->0.thematic->0.contracted->0.indicative->0.active is Some
    &&& t.present->0.thematic->0.contracted->0.indicative->0.active->0.singular is Some
    &&& t.present->0.thematic->0.contracted->0.indicative->0.active->0.singular->0.leaf(
        crate::grammar::Person::First,
    ) == Some(seq![(None::<Seq<char>>, Some(seq![stem, "ω"@]))])
}

/// Generates the start of a verb's paradigm from its lemma: for a verb in
/// -ω, the first singular of the present indicative active, as stem and
/// ending; other verbs are not known.
pub fn inflect_verb(lemma: &str) -> (r: Result<VerbInflectionTenses, InflectError>)
    ensures
        r is Ok <==> (lemma@.len() > 0 && lemma@.last() == 'ω'),
        r is Ok ==> present_first_singular(r->Ok_0, lemma@.drop_last()),
        r is Err ==> r->Err_0 == InflectError::Ending,
{
    let cs = chars_of(lemma);
    if cs.len() == 0 || cs[cs.len() - 1] != 'ω' {
        return Err(InflectError::Ending);
    }
    let mut stem_chars: Vec<char> = Vec::new();
    let mut i: usize = 0;
    while i + 1 < cs.len()
        invariant
            cs.len() >= 1,
            0 <= i <= cs.len() - 1,
            stem_chars@ == cs@.subrange(0, i as int),
        decreases cs.len() - i,
    {
        stem_chars.push(cs[i]);
        assert(cs@.subrange(0, i + 1) =~= cs@.subrange(0, i as int).push(cs@[i as int]));
        i = i + 1;
    }
    assert(stem_chars@ =~= lemma@.drop_last());
    let stem = string_of(&stem_chars);
    let pieces = vec![stem, "ω".to_owned()];
    assert(pieces@.map_values(|s: String| s@) =~= seq![lemma@.drop_last(), "ω"@]);
    let form = InflectionForm { contracted: None, uncontracted: Some(pieces) };
    let first = vec![form];
    assert(crate::lexicon::forms_view(first@) =~= seq![(None::<Seq<char>>, Some(seq![lemma@.drop_last(), "ω"@]))]);
    let persons = VerbInflectionPersons { first: Some(first), second: None, third: None };
    let numbers = VerbInflectionNumbers { singular: Some(persons), plural: None, dual: None };
    let voices = VerbInflectionVoices { active: Some(numbers), middle: None, passive: None };
    let moods = VerbInflectionMoods { indicative: Some(voices), ..VerbInflectionMoods::empty() };
    let contractions = VerbInflectionContractions { contracted: Some(moods), uncontracted: None };
    let themes = VerbInflectionThemes { thematic: Some(contractions), athematic: None };
    Ok(VerbInflectionTenses { present: Some(themes), ..VerbInflectionTenses::empty() })
}

} // verus!
