//! Inserting tagged words into paradigm trees: each word is placed under
//! every value its tags give for each dimension, creating branches on
//! demand, and its text is split at line breaks into one surface form per
//! line.
use vstd::prelude::*;
use crate::classify::ParsingComp;
use crate::grammar::{Case, Contraction, Dimension, Gender, Mood, Number, Person, Tense, Theme, Voice};
use crate::lexicon::{
    forms_view, is_finite, leaf_view, FormView, InflectionForm, NounInflectionCases,
    NounInflectionGenders, NounInflectionNumbers, VerbInflectionContractions,
    VerbInflectionInfinitive, VerbInflectionMoods, VerbInflectionNumbers, VerbInflectionParticiple,
    VerbInflectionPersons, VerbInflectionTenses, VerbInflectionThemes, VerbInflectionVoices,
};
use crate::table::ParsedWord;
use crate::text::{chars_of, string_of};

verus! {

/// The lines of `s` from position `i` on, `cur` being the part of the
/// current line read so far.
pub open spec fn lines_from(s: Seq<char>, i: int, cur: Seq<char>) -> Seq<Seq<char>>
    decreases s.len() - i,
{
    if i >= s.len() {
        seq![cur]
    } else if s[i] == '\n' {
        seq![cur] + lines_from(s, i + 1, Seq::empty())
    } else {
        lines_from(s, i + 1, cur.push(s[i]))
    }
}

/// The lines of `s`, split at each line break; there is always at least one.
pub open spec fn lines(s: Seq<char>) -> Seq<Seq<char>> {
    lines_from(s, 0, Seq::empty())
}

pub open spec fn plain_form(l: Seq<char>) -> FormView {
    (Some(l), None)
}

/// The surface forms of a cell's text: one per line.
pub open spec fn text_forms(s: Seq<char>) -> Seq<FormView> {
    lines(s).map_values(|l: Seq<char>| plain_form(l))
}

pub open spec fn tag_in(tags: Seq<ParsingComp>, t: ParsingComp) -> bool {
    tags.contains(t)
}

/// A leaf after an insertion that applies to it (`on`) or not.
pub open spec fn leaf_after(old: Option<Seq<FormView>>, on: bool, added: Seq<FormView>) -> Option<
    Seq<FormView>,
> {
    if on {
        Some(
            match old {
                Some(f) => f,
                None => Seq::empty(),
            } + added,
        )
    } else {
        old
    }
}

pub open spec fn cases_inserted(
    old: NounInflectionCases,
    new: NounInflectionCases,
    tags: Seq<ParsingComp>,
    added: Seq<FormView>,
) -> bool {
    forall|c: Case| #[trigger] new.leaf(c) == leaf_after(old.leaf(c), tag_in(tags, ParsingComp::Case(c)), added)
}

pub open spec fn numbers_inserted(
    old: NounInflectionNumbers,
    new: NounInflectionNumbers,
    tags: Seq<ParsingComp>,
    added: Seq<FormView>,
) -> bool {
    forall|n: Number|
        if tag_in(tags, ParsingComp::Number(n)) {
            &&& #[trigger] new.branch(n) is Some
            &&& cases_inserted(
                old.branch(n).unwrap_or(NounInflectionCases::spec_empty()),
                new.branch(n)->0,
                tags,
                added,
            )
        } else {
            new.branch(n) == old.branch(n)
        }
}

pub open spec fn genders_inserted(
    old: NounInflectionGenders,
    new: NounInflectionGenders,
    tags: Seq<ParsingComp>,
    added: Seq<FormView>,
) -> bool {
    forall|g: Gender|
        if tag_in(tags, ParsingComp::Gender(g)) {
            &&& #[trigger] new.branch(g) is Some
            &&& numbers_inserted(
                old.branch(g).unwrap_or(NounInflectionNumbers::spec_empty()),
                new.branch(g)->0,
                tags,
                added,
            )
        } else {
            new.branch(g) == old.branch(g)
        }
}

pub open spec fn tagged(tags: Seq<ParsingComp>, d: Dimension) -> bool {
    exists|i: int|
        0 <= i < tags.len() && match #[trigger] tags[i] {
            ParsingComp::Gender(_) => d == Dimension::Gender,
            ParsingComp::Number(_) => d == Dimension::Number,
            ParsingComp::Case(_) => d == Dimension::Case,
            ParsingComp::Tense(_) => d == Dimension::Tense,
            ParsingComp::Mood(_) => d == Dimension::Mood,
            ParsingComp::Voice(_) => d == Dimension::Voice,
            ParsingComp::Person(_) => d == Dimension::Person,
            _ => false,
        }
}

pub open spec fn has_finite_mood(tags: Seq<ParsingComp>) -> bool {
    exists|i: int| 0 <= i < tags.len() && (#[trigger] tags[i]) is Mood && is_finite(tags[i]->Mood_0)
}

/// The moods a word is tagged with can be filled without leaving an
/// empty branch: each mood has a voice below it, a finite mood a number
/// and a person, a participle a gender.
pub open spec fn moods_ready(tags: Seq<ParsingComp>) -> bool {
    &&& (tagged(tags, Dimension::Mood) ==> tagged(tags, Dimension::Voice))
    &&& (has_finite_mood(tags) ==> tagged(tags, Dimension::Number) && tagged(tags, Dimension::Person))
    &&& (tag_in(tags, ParsingComp::Mood(Mood::Participle)) ==> tagged(tags, Dimension::Gender))
}

/// A verb word carries a mood and everything below it.
pub open spec fn verb_ready(tags: Seq<ParsingComp>) -> bool {
    tagged(tags, Dimension::Mood) && moods_ready(tags)
}

proof fn lemma_mood_tagged(tags: Seq<ParsingComp>, m: Mood)
    requires
        tag_in(tags, ParsingComp::Mood(m)),
    ensures
        tagged(tags, Dimension::Mood),
        is_finite(m) ==> has_finite_mood(tags),
{
    let i = choose|i: int| 0 <= i < tags.len() && tags[i] == ParsingComp::Mood(m);
    assert(tags[i] is Mood && tags[i]->Mood_0 == m);
}

proof fn lemma_participle_tagged(tags: Seq<ParsingComp>)
    requires
        tagged(tags, Dimension::Gender),
    ensures
        tagged(participle_tags(tags), Dimension::Gender),
        tagged(participle_tags(tags), Dimension::Number),
        tagged(participle_tags(tags), Dimension::Case),
{
    let p = participle_tags(tags);
    let g = choose|i: int| 0 <= i < tags.len() && match #[trigger] tags[i] {
        ParsingComp::Gender(_) => Dimension::Gender == Dimension::Gender,
        _ => false,
    };
    assert(p[g] == tags[g]);
    if has_number_tag(tags) {
        let i = choose|i: int| 0 <= i < tags.len() && (#[trigger] tags[i]) is Number;
        assert(p[i] == tags[i]);
    } else {
        assert(p[tags.len() as int] == ParsingComp::Number(Number::Singular));
    }
    if has_case_tag(tags) {
        let i = choose|i: int| 0 <= i < tags.len() && (#[trigger] tags[i]) is Case;
        assert(p[i] == tags[i]);
    } else {
        assert(p[p.len() - 1] == ParsingComp::Case(Case::Nominative));
    }
}

/// Whether `tags` holds `t`.
pub fn has_tag(tags: &Vec<ParsingComp>, t: ParsingComp) -> (r: bool)
    ensures
        r == tag_in(tags@, t),
{
    let mut i: usize = 0;
    while i < tags.len()
        invariant
            0 <= i <= tags.len(),
            forall|j: int| 0 <= j < i ==> tags@[j] != t,
        decreases tags.len() - i,
    {
        if tags[i] == t {
            assert(tags@[i as int] == t);
            return true;
        }
        i = i + 1;
    }
    false
}

fn plain(line: &Vec<char>) -> (r: InflectionForm)
    ensures
        r.spec_view() == plain_form(line@),
{
    InflectionForm { contracted: Some(string_of(line)), uncontracted: None }
}

/// Appends to `forms` one surface form per line of the word's text.
pub fn fill_forms(word: &ParsedWord, forms: &mut Vec<InflectionForm>)
    ensures
        forms_view(final(forms)@) == forms_view(old(forms)@) + text_forms(word.text@),
{
    let s = chars_of(word.text.as_str());
    let ghost start = forms_view(forms@);
    let mut cur: Vec<char> = Vec::new();
    let mut i: usize = 0;
    while i < s.len()
        invariant
            0 <= i <= s.len(),
            s@ == word.text@,
            forms_view(forms@) + lines_from(s@, i as int, cur@).map_values(
                |l: Seq<char>| plain_form(l),
            ) == start + text_forms(word.text@),
        decreases s.len() - i,
    {
        let ghost f0 = forms_view(forms@);
        if s[i] == '\n' {
            let ghost rest = lines_from(s@, i + 1, Seq::empty());
            assert(lines_from(s@, i as int, cur@) == seq![cur@] + rest);
            forms.push(plain(&cur));
            assert(forms_view(forms@) =~= f0.push(plain_form(cur@)));
            assert((seq![cur@] + rest).map_values(|l: Seq<char>| plain_form(l)) =~= seq![plain_form(cur@)]
                + rest.map_values(|l: Seq<char>| plain_form(l)));
            assert(f0.push(plain_form(cur@)) + rest.map_values(|l: Seq<char>| plain_form(l)) =~= f0 + (
            seq![plain_form(cur@)] + rest.map_values(|l: Seq<char>| plain_form(l))));
            cur = Vec::new();
            assert(cur@ =~= Seq::<char>::empty());
        } else {
            assert(lines_from(s@, i as int, cur@) == lines_from(s@, i + 1, cur@.push(s@[i as int])));
            cur.push(s[i]);
        }
        i = i + 1;
    }
    let ghost f0 = forms_view(forms@);
    assert(lines_from(s@, i as int, cur@) == seq![cur@]);
    forms.push(plain(&cur));
    assert(forms_view(forms@) =~= f0.push(plain_form(cur@)));
    assert(seq![cur@].map_values(|l: Seq<char>| plain_form(l)) =~= seq![plain_form(cur@)]);
}

/// Appends the word's forms to a leaf, creating it if absent.
fn fill_leaf(word: &ParsedWord, leaf: &mut Option<Vec<InflectionForm>>)
    ensures
        leaf_view(*final(leaf)) == leaf_after(leaf_view(*old(leaf)), true, text_forms(word.text@)),
{
    let mut v = match leaf.take() {
        Some(v) => v,
        None => Vec::new(),
    };
    assert(forms_view(Seq::<InflectionForm>::empty()) =~= Seq::<FormView>::empty());
    fill_forms(word, &mut v);
    *leaf = Some(v);
}

/// Inserts the word under each case its tags give.
pub fn fill_cases(word: &ParsedWord, cases: &mut NounInflectionCases)
    ensures
        cases_inserted(*old(cases), *final(cases), word.parsing@, text_forms(word.text@)),
{
    if has_tag(&word.parsing, ParsingComp::Case(Case::Nominative)) {
        fill_leaf(word, &mut cases.nominative);
    }
    if has_tag(&word.parsing, ParsingComp::Case(Case::Genitive)) {
        fill_leaf(word, &mut cases.genitive);
    }
    if has_tag(&word.parsing, ParsingComp::Case(Case::Dative)) {
        fill_leaf(word, &mut cases.dative);
    }
    if has_tag(&word.parsing, ParsingComp::Case(Case::Accusative)) {
        fill_leaf(word, &mut cases.accusative);
    }
    if has_tag(&word.parsing, ParsingComp::Case(Case::Vocative)) {
        fill_leaf(word, &mut cases.vocative);
    }
}

fn fill_cases_at(word: &ParsedWord, slot: &mut Option<NounInflectionCases>)
    requires
        tagged(word.parsing@, Dimension::Case),
    ensures
        (*final(slot)) is Some,
        cases_inserted(
            (*old(slot)).unwrap_or(NounInflectionCases::spec_empty()),
            (*final(slot))->0,
            word.parsing@,
            text_forms(word.text@),
        ),
{
    let mut c = match slot.take() {
        Some(c) => c,
        None => NounInflectionCases::empty(),
    };
    fill_cases(word, &mut c);
    *slot = Some(c);
}

/// Inserts the word under each number, then each case, its tags give.
fn fill_numbers_in(word: &ParsedWord, numbers: &mut NounInflectionNumbers)
    requires
        tagged(word.parsing@, Dimension::Case),
    ensures
        numbers_inserted(*old(numbers), *final(numbers), word.parsing@, text_forms(word.text@)),
{
    if has_tag(&word.parsing, ParsingComp::Number(Number::Singular)) {
        fill_cases_at(word, &mut numbers.singular);
    }
    if has_tag(&word.parsing, ParsingComp::Number(Number::Dual)) {
        fill_cases_at(word, &mut numbers.dual);
    }
    if has_tag(&word.parsing, ParsingComp::Number(Number::Plural)) {
        fill_cases_at(word, &mut numbers.plural);
    }
}

fn fill_numbers_at(word: &ParsedWord, slot: &mut Option<NounInflectionNumbers>)
    requires
        tagged(word.parsing@, Dimension::Number),
        tagged(word.parsing@, Dimension::Case),
    ensures
        (*final(slot)) is Some,
        numbers_inserted(
            (*old(slot)).unwrap_or(NounInflectionNumbers::spec_empty()),
            (*final(slot))->0,
            word.parsing@,
            text_forms(word.text@),
        ),
{
    let mut c = match slot.take() {
        Some(c) => c,
        None => NounInflectionNumbers::empty(),
    };
    fill_numbers_in(word, &mut c);
    *slot = Some(c);
}

/// Inserts the word under each gender, number and case its tags give.
fn fill_genders_in(word: &ParsedWord, genders: &mut NounInflectionGenders)
    requires
        tagged(word.parsing@, Dimension::Number),
        tagged(word.parsing@, Dimension::Case),
    ensures
        genders_inserted(*old(genders), *final(genders), word.parsing@, text_forms(word.text@)),
{
    if has_tag(&word.parsing, ParsingComp::Gender(Gender::Masculine)) {
        fill_numbers_at(word, &mut genders.masculine);
    }
    if has_tag(&word.parsing, ParsingComp::Gender(Gender::Feminine)) {
        fill_numbers_at(word, &mut genders.feminine);
    }
    if has_tag(&word.parsing, ParsingComp::Gender(Gender::Neuter)) {
        fill_numbers_at(word, &mut genders.neuter);
    }
}

pub(crate) fn fill_genders_at(word: &ParsedWord, slot: &mut Option<NounInflectionGenders>)
    requires
        tagged(word.parsing@, Dimension::Gender),
        tagged(word.parsing@, Dimension::Number),
        tagged(word.parsing@, Dimension::Case),
    ensures
        (*final(slot)) is Some,
        genders_inserted(
            (*old(slot)).unwrap_or(NounInflectionGenders::spec_empty()),
            (*final(slot))->0,
            word.parsing@,
            text_forms(word.text@),
        ),
{
    let mut c = match slot.take() {
        Some(c) => c,
        None => NounInflectionGenders::empty(),
    };
    fill_genders_in(word, &mut c);
    *slot = Some(c);
}

/// Index of the first '(' of `l` from `i` on, or the length of `l`.
pub open spec fn open_paren_from(l: Seq<char>, i: int) -> int
    decreases l.len() - i,
{
    if i >= l.len() {
        l.len() as int
    } else if l[i] == '(' {
        i
    } else {
        open_paren_from(l, i + 1)
    }
}

/// `s` without its parentheses.
pub open spec fn strip_parens(s: Seq<char>) -> Seq<char>
    decreases s.len(),
{
    if s.len() == 0 {
        Seq::empty()
    } else if s.last() == '(' || s.last() == ')' {
        strip_parens(s.drop_last())
    } else {
        strip_parens(s.drop_last()).push(s.last())
    }
}

/// The spellings a verb form's line stands for. A line that ends in a
/// parenthesised group, as the movable nu in "λέγει(ν)", stands for the
/// form without the group and the form with it: "λέγει" and "λέγειν".
pub open spec fn nu_variants(l: Seq<char>) -> Seq<Seq<char>> {
    if l.len() > 0 && l.last() == ')' {
        let p = open_paren_from(l, 0);
        let a = l.subrange(0, p);
        seq![a, a + strip_parens(l.subrange(p, l.len() as int))]
    } else {
        seq![l]
    }
}

pub open spec fn nu_expand(ls: Seq<Seq<char>>) -> Seq<FormView>
    decreases ls.len(),
{
    if ls.len() == 0 {
        Seq::empty()
    } else {
        nu_expand(ls.drop_last()) + nu_variants(ls.last()).map_values(|l: Seq<char>| plain_form(l))
    }
}

/// The surface forms of a verb cell's text: the spellings of each line.
pub open spec fn verb_text_forms(s: Seq<char>) -> Seq<FormView> {
    nu_expand(lines(s))
}

/// Splits `s` into its lines.
fn split_lines(s: &Vec<char>) -> (r: Vec<Vec<char>>)
    ensures
        r@.map_values(|l: Vec<char>| l@) == lines(s@),
{
    let mut out: Vec<Vec<char>> = Vec::new();
    let mut cur: Vec<char> = Vec::new();
    let mut i: usize = 0;
    while i < s.len()
        invariant
            0 <= i <= s.len(),
            out@.map_values(|l: Vec<char>| l@) + lines_from(s@, i as int, cur@) == lines(s@),
        decreases s.len() - i,
    {
        let ghost o0 = out@.map_values(|l: Vec<char>| l@);
        if s[i] == '\n' {
            let ghost rest = lines_from(s@, i + 1, Seq::empty());
            assert(lines_from(s@, i as int, cur@) == seq![cur@] + rest);
            let ghost c0 = cur@;
            out.push(cur);
            assert(out@.map_values(|l: Vec<char>| l@) =~= o0.push(c0));
            assert(o0.push(c0) + rest =~= o0 + (seq![c0] + rest));
            cur = Vec::new();
            assert(cur@ =~= Seq::<char>::empty());
        } else {
            assert(lines_from(s@, i as int, cur@) == lines_from(s@, i + 1, cur@.push(s@[i as int])));
            cur.push(s[i]);
        }
        i = i + 1;
    }
    let ghost o0 = out@.map_values(|l: Vec<char>| l@);
    assert(lines_from(s@, i as int, cur@) == seq![cur@]);
    let ghost c0 = cur@;
    out.push(cur);
    assert(out@.map_values(|l: Vec<char>| l@) =~= o0.push(c0));
    assert(o0 + seq![c0] =~= o0.push(c0));
    out
}

/// Appends to `forms` the spellings that the line `l` stands for.
fn push_variants(l: &Vec<char>, forms: &mut Vec<InflectionForm>)
    ensures
        forms_view(final(forms)@) == forms_view(old(forms)@) + nu_variants(l@).map_values(
            |v: Seq<char>| plain_form(v),
        ),
{
    let ghost f0 = forms_view(forms@);
    if l.len() > 0 && l[l.len() - 1] == ')' {
        let mut p: usize = 0;
        while p < l.len() && l[p] != '('
            invariant
                0 <= p <= l.len(),
                open_paren_from(l@, 0) == open_paren_from(l@, p as int),
            decreases l.len() - p,
        {
            p = p + 1;
        }
        let mut a: Vec<char> = Vec::new();
        let mut j: usize = 0;
        while j < p
            invariant
                0 <= j <= p <= l.len(),
                a@ == l@.subrange(0, j as int),
            decreases p - j,
        {
            a.push(l[j]);
            assert(l@.subrange(0, j + 1) =~= l@.subrange(0, j as int).push(l@[j as int]));
            j = j + 1;
        }
        let mut b: Vec<char> = Vec::new();
        let mut k: usize = 0;
        while k < p
            invariant
                0 <= k <= p <= l.len(),
                a@ == l@.subrange(0, p as int),
                b@ == l@.subrange(0, k as int),
            decreases p - k,
        {
            b.push(l[k]);
            assert(l@.subrange(0, k + 1) =~= l@.subrange(0, k as int).push(l@[k as int]));
            k = k + 1;
        }
        let mut m: usize = p;
        while m < l.len()
            invariant
                0 <= p <= m <= l.len(),
                b@ == l@.subrange(0, p as int) + strip_parens(l@.subrange(p as int, m as int)),
            decreases l.len() - m,
        {
            let ghost seg = l@.subrange(p as int, m + 1);
            assert(seg.drop_last() =~= l@.subrange(p as int, m as int));
            assert(seg.last() == l@[m as int]);
            if l[m] != '(' && l[m] != ')' {
                b.push(l[m]);
                assert(b@ =~= l@.subrange(0, p as int) + strip_parens(seg));
            }
            m = m + 1;
        }
        forms.push(plain(&a));
        forms.push(plain(&b));
        assert(nu_variants(l@) == seq![a@, b@]);
        assert(forms_view(forms@) =~= f0 + nu_variants(l@).map_values(|v: Seq<char>| plain_form(v)));
    } else {
        forms.push(plain(l));
        assert(forms_view(forms@) =~= f0 + nu_variants(l@).map_values(|v: Seq<char>| plain_form(v)));
    }
}

/// Appends to `forms` the spellings of each line of the word's text.
pub fn fill_verb_forms(word: &ParsedWord, forms: &mut Vec<InflectionForm>)
    ensures
        forms_view(final(forms)@) == forms_view(old(forms)@) + verb_text_forms(word.text@),
{
    let s = chars_of(word.text.as_str());
    let ls = split_lines(&s);
    let ghost lv = ls@.map_values(|l: Vec<char>| l@);
    let ghost start = forms_view(forms@);
    let mut i: usize = 0;
    while i < ls.len()
        invariant
            0 <= i <= ls.len(),
            lv == ls@.map_values(|l: Vec<char>| l@),
            forms_view(forms@) == start + nu_expand(lv.subrange(0, i as int)),
        decreases ls.len() - i,
    {
        let ghost f0 = forms_view(forms@);
        push_variants(&ls[i], forms);
        assert(lv.subrange(0, i + 1).drop_last() =~= lv.subrange(0, i as int));
        assert(lv.subrange(0, i + 1).last() == ls@[i as int]@);
        assert(forms_view(forms@) =~= start + nu_expand(lv.subrange(0, i + 1)));
        i = i + 1;
    }
    assert(lv.subrange(0, ls.len() as int) =~= lv);
}

fn fill_verb_leaf(word: &ParsedWord, leaf: &mut Option<Vec<InflectionForm>>)
    ensures
        leaf_view(*final(leaf)) == leaf_after(leaf_view(*old(leaf)), true, verb_text_forms(word.text@)),
{
    let mut v = match leaf.take() {
        Some(v) => v,
        None => Vec::new(),
    };
    assert(forms_view(Seq::<InflectionForm>::empty()) =~= Seq::<FormView>::empty());
    fill_verb_forms(word, &mut v);
    *leaf = Some(v);
}

pub open spec fn persons_inserted(
    old: VerbInflectionPersons,
    new: VerbInflectionPersons,
    tags: Seq<ParsingComp>,
    added: Seq<FormView>,
) -> bool {
    forall|p: Person|
        #[trigger] new.leaf(p) == leaf_after(old.leaf(p), tag_in(tags, ParsingComp::Person(p)), added)
}

pub open spec fn verb_numbers_inserted(
    old: VerbInflectionNumbers,
    new: VerbInflectionNumbers,
    tags: Seq<ParsingComp>,
    added: Seq<FormView>,
) -> bool {
    forall|n: Number|
        if tag_in(tags, ParsingComp::Number(n)) {
            &&& #[trigger] new.branch(n) is Some
            &&& persons_inserted(
                old.branch(n).unwrap_or(VerbInflectionPersons::spec_empty()),
                new.branch(n)->0,
                tags,
                added,
            )
        } else {
            new.branch(n) == old.branch(n)
        }
}

pub open spec fn voices_inserted(
    old: VerbInflectionVoices,
    new: VerbInflectionVoices,
    tags: Seq<ParsingComp>,
    added: Seq<FormView>,
) -> bool {
    forall|v: Voice|
        if tag_in(tags, ParsingComp::Voice(v)) {
            &&& #[trigger] new.branch(v) is Some
            &&& verb_numbers_inserted(
                old.branch(v).unwrap_or(VerbInflectionNumbers::spec_empty()),
                new.branch(v)->0,
                tags,
                added,
            )
        } else {
            new.branch(v) == old.branch(v)
        }
}

pub open spec fn infinitive_inserted(
    old: VerbInflectionInfinitive,
    new: VerbInflectionInfinitive,
    tags: Seq<ParsingComp>,
    added: Seq<FormView>,
) -> bool {
    forall|v: Voice|
        #[trigger] new.leaf(v) == leaf_after(old.leaf(v), tag_in(tags, ParsingComp::Voice(v)), added)
}

pub open spec fn has_number_tag(tags: Seq<ParsingComp>) -> bool {
    exists|i: int| 0 <= i < tags.len() && (#[trigger] tags[i]) is Number
}

pub open spec fn has_case_tag(tags: Seq<ParsingComp>) -> bool {
    exists|i: int| 0 <= i < tags.len() && (#[trigger] tags[i]) is Case
}

/// A participle's tags: tables give participles no number or case, so the
/// singular and the nominative stand in for them where absent.
pub open spec fn participle_tags(tags: Seq<ParsingComp>) -> Seq<ParsingComp> {
    tags + (if has_number_tag(tags) {
        Seq::empty()
    } else {
        seq![ParsingComp::Number(Number::Singular)]
    }) + (if has_case_tag(tags) {
        Seq::empty()
    } else {
        seq![ParsingComp::Case(Case::Nominative)]
    })
}

pub open spec fn participle_inserted(
    old: VerbInflectionParticiple,
    new: VerbInflectionParticiple,
    tags: Seq<ParsingComp>,
    added: Seq<FormView>,
) -> bool {
    forall|v: Voice|
        if tag_in(tags, ParsingComp::Voice(v)) {
            &&& #[trigger] new.branch(v) is Some
            &&& genders_inserted(
                old.branch(v).unwrap_or(NounInflectionGenders::spec_empty()),
                new.branch(v)->0,
                participle_tags(tags),
                added,
            )
        } else {
            new.branch(v) == old.branch(v)
        }
}

/// Insertion under the moods: `added` is what finite and infinitive leaves
/// receive, `padded` what participle leaves receive.
pub open spec fn moods_inserted(
    old: VerbInflectionMoods,
    new: VerbInflectionMoods,
    tags: Seq<ParsingComp>,
    added: Seq<FormView>,
    padded: Seq<FormView>,
) -> bool {
    &&& forall|m: Mood|
        is_finite(m) ==> if tag_in(tags, ParsingComp::Mood(m)) {
            &&& #[trigger] new.finite(m) is Some
            &&& voices_inserted(
                old.finite(m).unwrap_or(VerbInflectionVoices::spec_empty()),
                new.finite(m)->0,
                tags,
                added,
            )
        } else {
            new.finite(m) == old.finite(m)
        }
    &&& if tag_in(tags, ParsingComp::Mood(Mood::Infinitive)) {
        &&& new.infinitive is Some
        &&& infinitive_inserted(
            old.infinitive.unwrap_or(VerbInflectionInfinitive::spec_empty()),
            new.infinitive->0,
            tags,
            added,
        )
    } else {
        new.infinitive == old.infinitive
    }
    &&& if tag_in(tags, ParsingComp::Mood(Mood::Participle)) {
        &&& new.participle is Some
        &&& participle_inserted(
            old.participle.unwrap_or(VerbInflectionParticiple::spec_empty()),
            new.participle->0,
            tags,
            padded,
        )
    } else {
        new.participle == old.participle
    }
}

/// The contraction a word is filed under: uncontracted where tagged so,
/// contracted otherwise.
pub open spec fn contraction_of(tags: Seq<ParsingComp>) -> Contraction {
    if tag_in(tags, ParsingComp::Contraction(Contraction::Uncontracted)) {
        Contraction::Uncontracted
    } else {
        Contraction::Contracted
    }
}

/// The theme a word is filed under: athematic where tagged so, thematic otherwise.
pub open spec fn theme_of(tags: Seq<ParsingComp>) -> Theme {
    if tag_in(tags, ParsingComp::Theme(Theme::Athematic)) {
        Theme::Athematic
    } else {
        Theme::Thematic
    }
}

pub open spec fn contractions_inserted(
    old: VerbInflectionContractions,
    new: VerbInflectionContractions,
    tags: Seq<ParsingComp>,
    added: Seq<FormView>,
    padded: Seq<FormView>,
) -> bool {
    forall|c: Contraction|
        if c == contraction_of(tags) {
            &&& #[trigger] new.branch(c) is Some
            &&& moods_inserted(
                old.branch(c).unwrap_or(VerbInflectionMoods::spec_empty()),
                new.branch(c)->0,
                tags,
                added,
                padded,
            )
        } else {
            new.branch(c) == old.branch(c)
        }
}

pub open spec fn themes_inserted(
    old: VerbInflectionThemes,
    new: VerbInflectionThemes,
    tags: Seq<ParsingComp>,
    added: Seq<FormView>,
    padded: Seq<FormView>,
) -> bool {
    forall|t: Theme|
        if t == theme_of(tags) {
            &&& #[trigger] new.branch(t) is Some
            &&& contractions_inserted(
                old.branch(t).unwrap_or(VerbInflectionContractions::spec_empty()),
                new.branch(t)->0,
                tags,
                added,
                padded,
            )
        } else {
            new.branch(t) == old.branch(t)
        }
}

pub open spec fn tenses_inserted(
    old: VerbInflectionTenses,
    new: VerbInflectionTenses,
    tags: Seq<ParsingComp>,
    added: Seq<FormView>,
    padded: Seq<FormView>,
) -> bool {
    forall|t: Tense|
        if tag_in(tags, ParsingComp::Tense(t)) {
            &&& #[trigger] new.branch(t) is Some
            &&& themes_inserted(
                old.branch(t).unwrap_or(VerbInflectionThemes::spec_empty()),
                new.branch(t)->0,
                tags,
                added,
                padded,
            )
        } else {
            new.branch(t) == old.branch(t)
        }
}

/// Inserts the word under each person its tags give.
fn fill_persons(word: &ParsedWord, persons: &mut VerbInflectionPersons)
    ensures
        persons_inserted(*old(persons), *final(persons), word.parsing@, verb_text_forms(word.text@)),
{
    if has_tag(&word.parsing, ParsingComp::Person(Person::First)) {
        fill_verb_leaf(word, &mut persons.first);
    }
    if has_tag(&word.parsing, ParsingComp::Person(Person::Second)) {
        fill_verb_leaf(word, &mut persons.second);
    }
    if has_tag(&word.parsing, ParsingComp::Person(Person::Third)) {
        fill_verb_leaf(word, &mut persons.third);
    }
}

fn fill_persons_at(word: &ParsedWord, slot: &mut Option<VerbInflectionPersons>)
    requires
        tagged(word.parsing@, Dimension::Person),
    ensures
        (*final(slot)) is Some,
        persons_inserted(
            (*old(slot)).unwrap_or(VerbInflectionPersons::spec_empty()),
            (*final(slot))->0,
            word.parsing@,
            verb_text_forms(word.text@),
        ),
{
    let mut c = match slot.take() {
        Some(c) => c,
        None => VerbInflectionPersons::empty(),
    };
    fill_persons(word, &mut c);
    *slot = Some(c);
}

/// Inserts the word under each number, then each person, its tags give.
fn fill_verb_numbers(word: &ParsedWord, numbers: &mut VerbInflectionNumbers)
    requires
        tagged(word.parsing@, Dimension::Person),
    ensures
        verb_numbers_inserted(*old(numbers), *final(numbers), word.parsing@, verb_text_forms(word.text@)),
{
    if has_tag(&word.parsing, ParsingComp::Number(Number::Singular)) {
        fill_persons_at(word, &mut numbers.singular);
    }
    if has_tag(&word.parsing, ParsingComp::Number(Number::Plural)) {
        fill_persons_at(word, &mut numbers.plural);
    }
    if has_tag(&word.parsing, ParsingComp::Number(Number::Dual)) {
        fill_persons_at(word, &mut numbers.dual);
    }
}

fn fill_verb_numbers_at(word: &ParsedWord, slot: &mut Option<VerbInflectionNumbers>)
    requires
        tagged(word.parsing@, Dimension::Number),
        tagged(word.parsing@, Dimension::Person),
    ensures
        (*final(slot)) is Some,
        verb_numbers_inserted(
            (*old(slot)).unwrap_or(VerbInflectionNumbers::spec_empty()),
            (*final(slot))->0,
            word.parsing@,
            verb_text_forms(word.text@),
        ),
{
    let mut c = match slot.take() {
        Some(c) => c,
        None => VerbInflectionNumbers::empty(),
    };
    fill_verb_numbers(word, &mut c);
    *slot = Some(c);
}

/// Inserts the word under each voice, number and person its tags give.
fn fill_voices(word: &ParsedWord, voices: &mut VerbInflectionVoices)
    requires
        tagged(word.parsing@, Dimension::Number),
        tagged(word.parsing@, Dimension::Person),
    ensures
        voices_inserted(*old(voices), *final(voices), word.parsing@, verb_text_forms(word.text@)),
{
    if has_tag(&word.parsing, ParsingComp::Voice(Voice::Active)) {
        fill_verb_numbers_at(word, &mut voices.active);
    }
    if has_tag(&word.parsing, ParsingComp::Voice(Voice::Middle)) {
        fill_verb_numbers_at(word, &mut voices.middle);
    }
    if has_tag(&word.parsing, ParsingComp::Voice(Voice::Passive)) {
        fill_verb_numbers_at(word, &mut voices.passive);
    }
}

fn fill_voices_at(word: &ParsedWord, slot: &mut Option<VerbInflectionVoices>)
    requires
        tagged(word.parsing@, Dimension::Voice),
        tagged(word.parsing@, Dimension::Number),
        tagged(word.parsing@, Dimension::Person),
    ensures
        (*final(slot)) is Some,
        voices_inserted(
            (*old(slot)).unwrap_or(VerbInflectionVoices::spec_empty()),
            (*final(slot))->0,
            word.parsing@,
            verb_text_forms(word.text@),
        ),
{
    let mut c = match slot.take() {
        Some(c) => c,
        None => VerbInflectionVoices::empty(),
    };
    fill_voices(word, &mut c);
    *slot = Some(c);
}

/// Inserts the word under each voice of the infinitive its tags give.
fn fill_infinitive(word: &ParsedWord, infinitive: &mut VerbInflectionInfinitive)
    ensures
        infinitive_inserted(*old(infinitive), *final(infinitive), word.parsing@, verb_text_forms(word.text@)),
{
    if has_tag(&word.parsing, ParsingComp::Voice(Voice::Active)) {
        fill_verb_leaf(word, &mut infinitive.active);
    }
    if has_tag(&word.parsing, ParsingComp::Voice(Voice::Middle)) {
        fill_verb_leaf(word, &mut infinitive.middle);
    }
    if has_tag(&word.parsing, ParsingComp::Voice(Voice::Passive)) {
        fill_verb_leaf(word, &mut infinitive.passive);
    }
}

fn copy_text(s: &String) -> (r: String)
    ensures
        r@ == s@,
{
    s.clone()
}

/// The word with the participle's stand-in number and case added.
fn participle_word(word: &ParsedWord) -> (r: ParsedWord)
    ensures
        r.text@ == word.text@,
        r.parsing@ == participle_tags(word.parsing@),
{
    let mut tags: Vec<ParsingComp> = Vec::new();
    let mut has_number = false;
    let mut has_case = false;
    let mut i: usize = 0;
    while i < word.parsing.len()
        invariant
            0 <= i <= word.parsing.len(),
            tags@ == word.parsing@.subrange(0, i as int),
            has_number == exists|j: int| 0 <= j < i && (#[trigger] word.parsing@[j]) is Number,
            has_case == exists|j: int| 0 <= j < i && (#[trigger] word.parsing@[j]) is Case,
        decreases word.parsing.len() - i,
    {
        let t = word.parsing[i];
        if t.is_number() {
            has_number = true;
        }
        if t.is_case() {
            has_case = true;
        }
        tags.push(t);
        assert(word.parsing@.subrange(0, i + 1) =~= word.parsing@.subrange(0, i as int).push(t));
        i = i + 1;
    }
    assert(word.parsing@.subrange(0, i as int) =~= word.parsing@);
    let ghost t0 = tags@;
    if !has_number {
        tags.push(ParsingComp::Number(Number::Singular));
    }
    let ghost t1 = tags@;
    assert(t1 =~= t0 + (if has_number_tag(word.parsing@) {
        Seq::empty()
    } else {
        seq![ParsingComp::Number(Number::Singular)]
    }));
    if !has_case {
        tags.push(ParsingComp::Case(Case::Nominative));
    }
    assert(tags@ =~= participle_tags(word.parsing@));
    ParsedWord { text: copy_text(&word.text), parsing: tags }
}

/// Inserts the word under each voice of the participle its tags give, then
/// by gender, number and case as a noun.
fn fill_participle(word: &ParsedWord, participle: &mut VerbInflectionParticiple)
    requires
        tagged(word.parsing@, Dimension::Gender),
    ensures
        participle_inserted(*old(participle), *final(participle), word.parsing@, text_forms(word.text@)),
{
    let pw = participle_word(word);
    proof {
        lemma_participle_tagged(word.parsing@);
    }
    if has_tag(&word.parsing, ParsingComp::Voice(Voice::Active)) {
        fill_genders_at(&pw, &mut participle.active);
    }
    if has_tag(&word.parsing, ParsingComp::Voice(Voice::Middle)) {
        fill_genders_at(&pw, &mut participle.middle);
    }
    if has_tag(&word.parsing, ParsingComp::Voice(Voice::Passive)) {
        fill_genders_at(&pw, &mut participle.passive);
    }
}

/// Inserts the word under each mood its tags give.
fn fill_moods(word: &ParsedWord, moods: &mut VerbInflectionMoods)
    requires
        moods_ready(word.parsing@),
    ensures
        moods_inserted(
            *old(moods),
            *final(moods),
            word.parsing@,
            verb_text_forms(word.text@),
            text_forms(word.text@),
        ),
{
    if has_tag(&word.parsing, ParsingComp::Mood(Mood::Indicative)) {
        proof {
            lemma_mood_tagged(word.parsing@, Mood::Indicative);
        }
        fill_voices_at(word, &mut moods.indicative);
    }
    if has_tag(&word.parsing, ParsingComp::Mood(Mood::Subjunctive)) {
        proof {
            lemma_mood_tagged(word.parsing@, Mood::Subjunctive);
        }
        fill_voices_at(word, &mut moods.subjunctive);
    }
    if has_tag(&word.parsing, ParsingComp::Mood(Mood::Optative)) {
        proof {
            lemma_mood_tagged(word.parsing@, Mood::Optative);
        }
        fill_voices_at(word, &mut moods.optative);
    }
    if has_tag(&word.parsing, ParsingComp::Mood(Mood::Imperative)) {
        proof {
            lemma_mood_tagged(word.parsing@, Mood::Imperative);
        }
        fill_voices_at(word, &mut moods.imperative);
    }
    if has_tag(&word.parsing, ParsingComp::Mood(Mood::Infinitive)) {
        proof {
            lemma_mood_tagged(word.parsing@, Mood::Infinitive);
        }
        let mut c = match moods.infinitive.take() {
            Some(c) => c,
            None => VerbInflectionInfinitive::empty(),
        };
        fill_infinitive(word, &mut c);
        moods.infinitive = Some(c);
    }
    if has_tag(&word.parsing, ParsingComp::Mood(Mood::Participle)) {
        proof {
            lemma_mood_tagged(word.parsing@, Mood::Participle);
        }
        let mut c = match moods.participle.take() {
            Some(c) => c,
            None => VerbInflectionParticiple::empty(),
        };
        fill_participle(word, &mut c);
        moods.participle = Some(c);
    }
}

/// Inserts the word under its contraction, then its moods.
fn fill_contractions(word: &ParsedWord, contractions: &mut VerbInflectionContractions)
    requires
        verb_ready(word.parsing@),
    ensures
        contractions_inserted(
            *old(contractions),
            *final(contractions),
            word.parsing@,
            verb_text_forms(word.text@),
            text_forms(word.text@),
        ),
{
    let slot = if has_tag(&word.parsing, ParsingComp::Contraction(Contraction::Uncontracted)) {
        &mut contractions.uncontracted
    } else {
        &mut contractions.contracted
    };
    let mut c = match slot.take() {
        Some(c) => c,
        None => VerbInflectionMoods::empty(),
    };
    fill_moods(word, &mut c);
    *slot = Some(c);
}

/// Inserts the word under its theme, then its contraction and moods.
fn fill_themes_in(word: &ParsedWord, themes: &mut VerbInflectionThemes)
    requires
        verb_ready(word.parsing@),
    ensures
        themes_inserted(
            *old(themes),
            *final(themes),
            word.parsing@,
            verb_text_forms(word.text@),
            text_forms(word.text@),
        ),
{
    let slot = if has_tag(&word.parsing, ParsingComp::Theme(Theme::Athematic)) {
        &mut themes.athematic
    } else {
        &mut themes.thematic
    };
    let mut c = match slot.take() {
        Some(c) => c,
        None => VerbInflectionContractions::empty(),
    };
    fill_contractions(word, &mut c);
    *slot = Some(c);
}

fn fill_themes_at(word: &ParsedWord, slot: &mut Option<VerbInflectionThemes>)
    requires
        verb_ready(word.parsing@),
    ensures
        (*final(slot)) is Some,
        themes_inserted(
            (*old(slot)).unwrap_or(VerbInflectionThemes::spec_empty()),
            (*final(slot))->0,
            word.parsing@,
            verb_text_forms(word.text@),
            text_forms(word.text@),
        ),
{
    let mut c = match slot.take() {
        Some(c) => c,
        None => VerbInflectionThemes::empty(),
    };
    fill_themes_in(word, &mut c);
    *slot = Some(c);
}

/// Inserts the word under each tense its tags give.
pub(crate) fn fill_tenses_in(word: &ParsedWord, tenses: &mut VerbInflectionTenses)
    requires
        verb_ready(word.parsing@),
    ensures
        tenses_inserted(
            *old(tenses),
            *final(tenses),
            word.parsing@,
            verb_text_forms(word.text@),
            text_forms(word.text@),
        ),
{
    if has_tag(&word.parsing, ParsingComp::Tense(Tense::Present)) {
        fill_themes_at(word, &mut tenses.present);
    }
    if has_tag(&word.parsing, ParsingComp::Tense(Tense::Imperfect)) {
        fill_themes_at(word, &mut tenses.imperfect);
    }
    if has_tag(&word.parsing, ParsingComp::Tense(Tense::Future)) {
        fill_themes_at(word, &mut tenses.future);
    }
    if has_tag(&word.parsing, ParsingComp::Tense(Tense::FuturePerfect)) {
        fill_themes_at(word, &mut tenses.future_perfect);
    }
    if has_tag(&word.parsing, ParsingComp::Tense(Tense::Aorist)) {
        fill_themes_at(word, &mut tenses.aorist);
    }
    if has_tag(&word.parsing, ParsingComp::Tense(Tense::Aorist2nd)) {
        fill_themes_at(word, &mut tenses.aorist_2nd);
    }
    if has_tag(&word.parsing, ParsingComp::Tense(Tense::Perfect)) {
        fill_themes_at(word, &mut tenses.perfect);
    }
    if has_tag(&word.parsing, ParsingComp::Tense(Tense::Perfect2nd)) {
        fill_themes_at(word, &mut tenses.perfect_2nd);
    }
    if has_tag(&word.parsing, ParsingComp::Tense(Tense::Pluperfect)) {
        fill_themes_at(word, &mut tenses.pluperfect);
    }
}

fn verb_ready_exec(tags: &Vec<ParsingComp>) -> (r: bool)
    ensures
        r == verb_ready(tags@),
{
    let mood = crate::paradigm::is_tagged(tags, Dimension::Mood);
    let voice = crate::paradigm::is_tagged(tags, Dimension::Voice);
    let finite = crate::paradigm::finite_mood_tagged(tags);
    let number = crate::paradigm::is_tagged(tags, Dimension::Number);
    let person = crate::paradigm::is_tagged(tags, Dimension::Person);
    let participle = has_tag(tags, ParsingComp::Mood(Mood::Participle));
    let gender = crate::paradigm::is_tagged(tags, Dimension::Gender);
    mood && voice && (!finite || (number && person)) && (!participle || gender)
}

/// Inserts the word under each number, then each case, its tags give. A
/// word without a case tag is dropped: the tree is left as it was.
pub fn fill_numbers(word: &ParsedWord, numbers: &mut NounInflectionNumbers)
    ensures
        tagged(word.parsing@, Dimension::Case) ==> numbers_inserted(*old(numbers), *final(numbers), word.parsing@, text_forms(word.text@)),
        !tagged(word.parsing@, Dimension::Case) ==> *final(numbers) == *old(numbers),
{
    if crate::paradigm::is_tagged(&word.parsing, Dimension::Case) {
        fill_numbers_in(word, numbers);
    }
}

/// Inserts the word under each gender, number and case its tags give. A
/// word without a number or a case tag is dropped: the tree is left as it was.
pub fn fill_genders(word: &ParsedWord, genders: &mut NounInflectionGenders)
    ensures
        tagged(word.parsing@, Dimension::Number) && tagged(word.parsing@, Dimension::Case) ==> genders_inserted(*old(genders), *final(genders), word.parsing@, text_forms(word.text@)),
        !(tagged(word.parsing@, Dimension::Number) && tagged(word.parsing@, Dimension::Case)) ==> *final(genders) == *old(genders),
{
    if crate::paradigm::is_tagged(&word.parsing, Dimension::Number) && crate::paradigm::is_tagged(&word.parsing, Dimension::Case) {
        fill_genders_in(word, genders);
    }
}

/// Inserts the word under its theme, contraction and moods. A word without
/// a mood, or without what its mood needs below it, is dropped: the tree is
/// left as it was.
pub fn fill_themes(word: &ParsedWord, themes: &mut VerbInflectionThemes)
    ensures
        verb_ready(word.parsing@) ==> themes_inserted(*old(themes), *final(themes), word.parsing@, verb_text_forms(word.text@), text_forms(word.text@)),
        !verb_ready(word.parsing@) ==> *final(themes) == *old(themes),
{
    if verb_ready_exec(&word.parsing) {
        fill_themes_in(word, themes);
    }
}

/// Inserts the word under each tense its tags give. A word without a mood,
/// or without what its mood needs below it, is dropped: the tree is left as
/// it was.
pub fn fill_tenses(word: &ParsedWord, tenses: &mut VerbInflectionTenses)
    ensures
        verb_ready(word.parsing@) ==> tenses_inserted(*old(tenses), *final(tenses), word.parsing@, verb_text_forms(word.text@), text_forms(word.text@)),
        !verb_ready(word.parsing@) ==> *final(tenses) == *old(tenses),
{
    if verb_ready_exec(&word.parsing) {
        fill_tenses_in(word, tenses);
    }
}

} // verus!
