//! Choosing among the analyses a dictionary offers for a spelling: each is
//! scored by how many dimensions it shares with the expected declension.
use vstd::prelude::*;
use crate::grammar::{Case, Declension, Gender, Mood, Noun, Number, PartOfSpeech, Person, Tense, Theme, Voice};
use crate::text::chars_of;

verus! {

/// One analysis a dictionary offers for a spelling.
#[derive(Debug, Clone)]
pub struct ParsingOption {
    pub word: String,
    pub uncontracted: String,
    pub parsing: String,
    pub opt_index: i32,
    pub inflection_lemma: String,
}

/// A character of Unicode's White_Space property, where `str::split_whitespace` splits.
pub open spec fn is_space(c: char) -> bool {
    let u = c as u32;
    (0x09 <= u <= 0x0d) || u == 0x20 || u == 0x85 || u == 0xa0 || u == 0x1680 || (0x2000 <= u
        <= 0x200a) || u == 0x2028 || u == 0x2029 || u == 0x202f || u == 0x205f || u == 0x3000
}

fn is_space_exec(c: char) -> (r: bool)
    ensures
        r == is_space(c),
{
    let u = c as u32;
    (0x09 <= u && u <= 0x0d) || u == 0x20 || u == 0x85 || u == 0xa0 || u == 0x1680 || (0x2000 <= u
        && u <= 0x200a) || u == 0x2028 || u == 0x2029 || u == 0x202f || u == 0x205f || u == 0x3000
}

/// The words of `s` from `i` on, `cur` being the word read so far.
pub open spec fn words_from(s: Seq<char>, i: int, cur: Seq<char>) -> Seq<Seq<char>>
    decreases s.len() - i,
{
    let done = if cur.len() > 0 {
        seq![cur]
    } else {
        Seq::<Seq<char>>::empty()
    };
    if i >= s.len() {
        done
    } else if is_space(s[i]) {
        done + words_from(s, i + 1, Seq::empty())
    } else {
        words_from(s, i + 1, cur.push(s[i]))
    }
}

/// The whitespace-separated words of `s`.
pub open spec fn words(s: Seq<char>) -> Seq<Seq<char>> {
    words_from(s, 0, Seq::empty())
}

pub open spec fn word_at(ws: Seq<Seq<char>>, i: int) -> Option<Seq<char>> {
    if 0 <= i < ws.len() {
        Some(ws[i])
    } else {
        None
    }
}

pub open spec fn point(b: bool) -> int {
    if b {
        1
    } else {
        0
    }
}

/// How many dimensions an analysis shares with `d`. An analysis reads as a
/// common noun, feminine where its first word is "(fem)", nominative where
/// its second is "nom", singular where its third is "sg"; the dimensions it
/// leaves unset match where `d` leaves them unset too.
pub open spec fn option_score(ws: Seq<Seq<char>>, d: Declension) -> int {
    let case = if word_at(ws, 1) == Some("nom"@) {
        Some(Case::Nominative)
    } else {
        None
    };
    let gender = if word_at(ws, 0) == Some("(fem)"@) {
        Some(Gender::Feminine)
    } else {
        None
    };
    let number = if word_at(ws, 2) == Some("sg"@) {
        Some(Number::Singular)
    } else {
        None
    };
    point(case == d.case) + point(gender == d.gender) + point(d.mood is None) + point(number == d.number)
        + point(d.part_of_speech == PartOfSpeech::Noun(Noun::Common)) + point(d.person is None) + point(
        d.tense is None,
    ) + point(d.theme is None) + point(d.voice is None)
}

fn split_words(s: &str) -> (r: Vec<Vec<char>>)
    ensures
        r@.map_values(|w: Vec<char>| w@) == words(s@),
{
    let cs = chars_of(s);
    let mut out: Vec<Vec<char>> = Vec::new();
    let mut cur: Vec<char> = Vec::new();
    let mut i: usize = 0;
    while i < cs.len()
        invariant
            0 <= i <= cs.len(),
            cs@ == s@,
            out@.map_values(|w: Vec<char>| w@) + words_from(cs@, i as int, cur@) == words(s@),
        decreases cs.len() - i,
    {
        let c = cs[i];
        let ghost o0 = out@.map_values(|w: Vec<char>| w@);
        if is_space_exec(c) {
            let ghost rest = words_from(cs@, i + 1, Seq::empty());
            if cur.len() > 0 {
                let ghost c0 = cur@;
                out.push(cur);
                assert(out@.map_values(|w: Vec<char>| w@) =~= o0.push(c0));
                assert(o0.push(c0) + rest =~= o0 + (seq![c0] + rest));
            } else {
                assert(Seq::<Seq<char>>::empty() + rest =~= rest);
            }
            cur = Vec::new();
            assert(cur@ =~= Seq::<char>::empty());
        } else {
            cur.push(c);
        }
        i = i + 1;
    }
    if cur.len() > 0 {
        let ghost o0 = out@.map_values(|w: Vec<char>| w@);
        let ghost c0 = cur@;
        out.push(cur);
        assert(out@.map_values(|w: Vec<char>| w@) =~= o0.push(c0));
        assert(o0 + seq![c0] =~= o0.push(c0));
    } else {
        assert(out@.map_values(|w: Vec<char>| w@) + Seq::<Seq<char>>::empty() =~= out@.map_values(|w: Vec<char>| w@));
    }
    out
}

pub open spec fn chars_view(ws: Seq<Vec<char>>) -> Seq<Seq<char>> {
    ws.map_values(|w: Vec<char>| w@)
}

fn word_is(ws: &Vec<Vec<char>>, i: usize, text: &str) -> (r: bool)
    ensures
        r == (word_at(chars_view(ws@), i as int) == Some(text@)),
{
    if i >= ws.len() {
        return false;
    }
    let t = chars_of(text);
    let w = &ws[i];
    assert(chars_view(ws@)[i as int] == w@);
    assert(word_at(chars_view(ws@), i as int) == Some(w@));
    if w.len() != t.len() {
        assert(w@.len() != text@.len());
        assert(w@ != text@);
        return false;
    }
    let mut k: usize = 0;
    while k < t.len()
        invariant
            w.len() == t.len(),
            t@ == text@,
            word_at(chars_view(ws@), i as int) == Some(w@),
            0 <= k <= t.len(),
            forall|j: int| 0 <= j < k ==> w@[j] == t@[j],
        decreases t.len() - k,
    {
        if w[k] != t[k] {
            assert(w@[k as int] != t@[k as int]);
            return false;
        }
        k = k + 1;
    }
    assert(w@ =~= t@);
    true
}

/// How many dimensions the analysis shares with the expected declension.
#[verifier::rlimit(60)]
pub fn compute_option_matching(option: &ParsingOption, declension: &Declension) -> (r: i32)
    ensures
        r == option_score(words(option.parsing@), *declension),
{
    let ws = split_words(option.parsing.as_str());
    let case = if word_is(&ws, 1, "nom") {
        Some(Case::Nominative)
    } else {
        None
    };
    let gender = if word_is(&ws, 0, "(fem)") {
        Some(Gender::Feminine)
    } else {
        None
    };
    let number = if word_is(&ws, 2, "sg") {
        Some(Number::Singular)
    } else {
        None
    };
    pt(case == declension.case) + pt(gender == declension.gender) + pt(declension.mood.is_none())
        + pt(number == declension.number) + pt(
        declension.part_of_speech == PartOfSpeech::Noun(Noun::Common),
    ) + pt(declension.person.is_none()) + pt(declension.tense.is_none()) + pt(
        declension.theme.is_none(),
    ) + pt(declension.voice.is_none())
}

fn pt(b: bool) -> (r: i32)
    ensures
        r == point(b),
{
    if b {
        1
    } else {
        0
    }
}

/// The index of the first of the best-scoring analyses, if any.
pub fn best_option(options: &Vec<ParsingOption>, declension: &Declension) -> (r: Option<usize>)
    ensures
        r is None <==> options@.len() == 0,
        r is Some ==> {
            &&& r->0 < options@.len()
            &&& forall|i: int|
                0 <= i < options@.len() ==> option_score(words(#[trigger] options@[i].parsing@), *declension)
                    <= option_score(words(options@[r->0 as int].parsing@), *declension)
            &&& forall|i: int|
                0 <= i < r->0 ==> option_score(words(#[trigger] options@[i].parsing@), *declension)
                    < option_score(words(options@[r->0 as int].parsing@), *declension)
        },
{
    if options.len() == 0 {
        return None;
    }
    let mut best: usize = 0;
    let mut best_score = compute_option_matching(&options[0], declension);
    let mut i: usize = 1;
    while i < options.len()
        invariant
            1 <= i <= options.len(),
            best < options.len(),
            best_score == option_score(words(options@[best as int].parsing@), *declension),
            forall|k: int|
                0 <= k < i ==> option_score(words(#[trigger] options@[k].parsing@), *declension) <= best_score,
            forall|k: int|
                0 <= k < best ==> option_score(words(#[trigger] options@[k].parsing@), *declension) < best_score,
        decreases options.len() - i,
    {
        let s = compute_option_matching(&options[i], declension);
        if s > best_score {
            best = i;
            best_score = s;
        }
        i = i + 1;
    }
    Some(best)
}

} // verus!
