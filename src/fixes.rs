//! Corrections to the grammatical analyses that verse annotations give:
//! known mis-tagged words, the quantifier "πᾶς", and adjectives whose
//! gloss shows them to be numerals.
use vstd::prelude::*;
use crate::grammar::{Case, Declension, Gender, Noun, Number, Numeral, PartOfSpeech};
use crate::texts::Book;
use crate::text::chars_of;

verus! {

/// `s` with every occurrence of `p` removed, scanning left to right.
pub open spec fn remove_all(s: Seq<char>, p: Seq<char>) -> Seq<char>
    decreases s.len(),
{
    if p.len() == 0 || s.len() == 0 {
        s
    } else if s.len() >= p.len() && s.subrange(0, p.len() as int) == p {
        remove_all(s.subrange(p.len() as int, s.len() as int), p)
    } else {
        seq![s[0]] + remove_all(s.subrange(1, s.len() as int), p)
    }
}

/// The pieces English number words are made of.
pub open spec fn number_parts() -> Seq<Seq<char>> {
    seq![
        "one"@, "two"@, "three"@, "four"@, "five"@, "six"@, "seven"@, "eighteen"@, "eighty"@, "eight"@, "nine"@, "ten"@,
        "eleven"@, "twelve"@, "thir"@, "fif"@, "twen"@, "thir"@, "for"@, "hundred"@, "thousand"@,
        "mi"@, "bi"@, "tri"@, "quadr"@, "teen"@, "ty"@, "illion"@,
    ]
}

/// `s` with the first `n` pieces of `parts` removed in turn.
pub open spec fn strip_parts(s: Seq<char>, parts: Seq<Seq<char>>, n: int) -> Seq<char>
    decreases n,
{
    if n <= 0 {
        s
    } else {
        remove_all(strip_parts(s, parts, n - 1), parts[n - 1])
    }
}

/// An English cardinal number word: made only of number pieces, and not
/// one of the pieces that stand for no number alone.
pub open spec fn is_cardinal_spec(s: Seq<char>) -> bool {
    !(s == "teen"@ || s == "for"@ || s == "bi"@ || s == "tri"@) && strip_parts(
        s,
        number_parts(),
        number_parts().len() as int,
    ).len() == 0
}

pub open spec fn ordinal_suffixes() -> Seq<Seq<char>> {
    seq!["st"@, "nd"@, "rd"@, "th"@]
}

pub open spec fn ends_with(s: Seq<char>, p: Seq<char>) -> bool {
    s.len() >= p.len() && s.subrange(s.len() - p.len(), s.len() as int) == p
}

/// Ordinal check by the suffixes from `k` on: the first suffix `s` ends
/// with decides, by whether `s` without it is a cardinal.
pub open spec fn ordinal_from(s: Seq<char>, k: int) -> bool
    decreases 4 - k,
{
    if k < 0 || k >= 4 {
        false
    } else if ends_with(s, ordinal_suffixes()[k]) {
        is_cardinal_spec(remove_all(s, ordinal_suffixes()[k]))
    } else {
        ordinal_from(s, k + 1)
    }
}

pub open spec fn is_ordinal_spec(s: Seq<char>) -> bool {
    ordinal_from(s, 0)
}

pub(crate) fn remove_all_exec(s: &Vec<char>, p: &Vec<char>) -> (r: Vec<char>)
    ensures
        r@ == remove_all(s@, p@),
{
    if p.len() == 0 {
        let mut out: Vec<char> = Vec::new();
        let mut i: usize = 0;
        while i < s.len()
            invariant
                0 <= i <= s.len(),
                out@ == s@.subrange(0, i as int),
            decreases s.len() - i,
        {
            out.push(s[i]);
            assert(s@.subrange(0, i + 1) =~= s@.subrange(0, i as int).push(s@[i as int]));
            i = i + 1;
        }
        assert(s@.subrange(0, i as int) =~= s@);
        return out;
    }
    let mut out: Vec<char> = Vec::new();
    let mut i: usize = 0;
    assert(s@.subrange(0, s@.len() as int) =~= s@);
    assert(out@ + remove_all(s@, p@) =~= remove_all(s@, p@));
    while i < s.len()
        invariant
            0 <= i <= s.len(),
            p@.len() > 0,
            out@ + remove_all(s@.subrange(i as int, s@.len() as int), p@) == remove_all(s@, p@),
        decreases s.len() - i,
    {
        let ghost rest = s@.subrange(i as int, s@.len() as int);
        if p.len() <= s.len() - i && matches_at(s, p, i) {
            assert(rest.subrange(0, p@.len() as int) =~= s@.subrange(i as int, i + p@.len()));
            assert(rest.subrange(p@.len() as int, rest.len() as int) =~= s@.subrange(i + p@.len(), s@.len() as int));
            i = i + p.len();
        } else {
            proof {
                assert(rest.subrange(1, rest.len() as int) =~= s@.subrange(i + 1, s@.len() as int));
                if rest.len() >= p@.len() {
                    assert(rest.subrange(0, p@.len() as int) =~= s@.subrange(i as int, i + p@.len()));
                }
            }
            let ghost o0 = out@;
            out.push(s[i]);
            assert(o0 + (seq![s@[i as int]] + remove_all(s@.subrange(i + 1, s@.len() as int), p@)) =~= out@ + remove_all(s@.subrange(i + 1, s@.len() as int), p@));
            i = i + 1;
        }
    }
    assert(remove_all(s@.subrange(i as int, s@.len() as int), p@) =~= Seq::<char>::empty());
    assert(out@ + Seq::<char>::empty() =~= out@);
    assert(s@.subrange(0, s@.len() as int) =~= s@);
    out
}

fn matches_at(s: &Vec<char>, p: &Vec<char>, i: usize) -> (r: bool)
    requires
        i + p@.len() <= s@.len(),
    ensures
        r == (s@.subrange(i as int, i + p@.len()) == p@),
{
    let mut j: usize = 0;
    while j < p.len()
        invariant
            i + p@.len() <= s@.len(),
            s@.len() == s.len(),
            0 <= j <= p.len(),
            forall|k: int| 0 <= k < j ==> s@[i + k] == p@[k],
        decreases p.len() - j,
    {
        if s[i + j] != p[j] {
            assert(s@.subrange(i as int, i + p@.len())[j as int] != p@[j as int]);
            return false;
        }
        j = j + 1;
    }
    assert(s@.subrange(i as int, i + p@.len()) =~= p@);
    true
}

fn same_chars(a: &Vec<char>, b: &str) -> (r: bool)
    ensures
        r == (a@ == b@),
{
    let bs = chars_of(b);
    if a.len() != bs.len() {
        return false;
    }
    let r = matches_at(a, &bs, 0);
    assert(a@.subrange(0, a@.len() as int) =~= a@);
    r
}

fn number_part_list() -> (r: Vec<&'static str>)
    ensures
        r@.map_values(|s: &'static str| s@) == number_parts(),
{
    let r = vec![
        "one", "two", "three", "four", "five", "six", "seven", "eighteen", "eighty", "eight", "nine", "ten", "eleven",
        "twelve", "thir", "fif", "twen", "thir", "for", "hundred", "thousand", "mi", "bi", "tri",
        "quadr", "teen", "ty", "illion",
    ];
    assert(r@.map_values(|s: &'static str| s@) =~= number_parts());
    r
}

fn is_cardinal_chars(s: &Vec<char>) -> (r: bool)
    ensures
        r == is_cardinal_spec(s@),
{
    if same_chars(s, "teen") || same_chars(s, "for") || same_chars(s, "bi") || same_chars(s, "tri") {
        return false;
    }
    let parts = number_part_list();
    let mut cur: Vec<char> = s.clone();
    assert(cur@ =~= s@);
    let mut k: usize = 0;
    while k < parts.len()
        invariant
            0 <= k <= parts.len(),
            parts@.map_values(|s: &'static str| s@) == number_parts(),
            cur@ == strip_parts(s@, number_parts(), k as int),
        decreases parts.len() - k,
    {
        let p = chars_of(parts[k]);
        assert(p@ == number_parts()[k as int]);
        cur = remove_all_exec(&cur, &p);
        k = k + 1;
    }
    cur.len() == 0
}

/// Whether an English gloss is a cardinal number word ("seven", "thirteen").
pub fn is_cardinal(s: &str) -> (r: bool)
    ensures
        r == is_cardinal_spec(s@),
{
    is_cardinal_chars(&chars_of(s))
}

/// Whether an English gloss is an ordinal number word ("seventh", "first"
/// is not: it is no cardinal piece followed by a suffix).
pub fn is_ordinal(s: &str) -> (r: bool)
    ensures
        r == is_ordinal_spec(s@),
{
    let cs = chars_of(s);
    let suffixes = vec!["st", "nd", "rd", "th"];
    assert(suffixes@.map_values(|s: &'static str| s@) =~= ordinal_suffixes());
    let mut k: usize = 0;
    while k < 4
        invariant
            0 <= k <= 4,
            suffixes@.len() == 4,
            suffixes@.map_values(|s: &'static str| s@) == ordinal_suffixes(),
            cs@ == s@,
            ordinal_from(s@, 0) == ordinal_from(s@, k as int),
        decreases 4 - k,
    {
        let p = chars_of(suffixes[k]);
        assert(p@ == ordinal_suffixes()[k as int]);
        if p.len() <= cs.len() && matches_at(&cs, &p, cs.len() - p.len()) {
            let rest = remove_all_exec(&cs, &p);
            return is_cardinal_chars(&rest);
        }
        k = k + 1;
    }
    false
}

/// The forms of "πᾶς" as the annotations spell them.
pub open spec fn is_pas(greek: Seq<char>) -> bool {
    greek == "πας"@ || greek == "παση"@ || greek == "πασαι"@
}

pub open spec fn fixed_declension(greek: Seq<char>, english: Seq<char>, d: Declension) -> Declension {
    let d1 = if is_pas(greek) {
        Declension { part_of_speech: PartOfSpeech::Quantifier, ..d }
    } else {
        d
    };
    if d1.part_of_speech is Adjective {
        if is_cardinal_spec(english) {
            Declension { part_of_speech: PartOfSpeech::Numeral(Numeral::Cardinal), ..d1 }
        } else if is_ordinal_spec(english) {
            Declension { part_of_speech: PartOfSpeech::Numeral(Numeral::Ordinal), ..d1 }
        } else {
            d1
        }
    } else {
        d1
    }
}

fn str_eq(a: &str, b: &str) -> (r: bool)
    ensures
        r == (a@ == b@),
{
    same_chars(&chars_of(a), b)
}

/// Corrects the part of speech of an annotated word: the forms of "πᾶς"
/// are quantifiers, and adjectives glossed by a number word are numerals.
pub fn fix_declension(greek: &str, english: &str, declension: &mut Declension)
    ensures
        *final(declension) == fixed_declension(greek@, english@, *old(declension)),
{
    if str_eq(greek, "πας") || str_eq(greek, "παση") || str_eq(greek, "πασαι") {
        declension.part_of_speech = PartOfSpeech::Quantifier;
    }
    if matches!(declension.part_of_speech, PartOfSpeech::Adjective(_)) {
        if is_cardinal(english) {
            declension.part_of_speech = PartOfSpeech::Numeral(Numeral::Cardinal);
        } else if is_ordinal(english) {
            declension.part_of_speech = PartOfSpeech::Numeral(Numeral::Ordinal);
        }
    }
}

/// The analysis of "ὄναρ", which the annotations get wrong.
pub open spec fn onar() -> Declension {
    Declension {
        part_of_speech: PartOfSpeech::Noun(Noun::Common),
        mood: None,
        person: None,
        number: Some(Number::Singular),
        gender: Some(Gender::Neuter),
        case: Some(Case::Nominative),
        voice: None,
        tense: None,
        theme: None,
        contraction: None,
        decl_type: None,
    }
}

/// The analysis of "Ῥούθ" at Matthew 1:5, word 15, which the annotations get wrong.
pub open spec fn routh_genitive() -> Declension {
    Declension {
        part_of_speech: PartOfSpeech::Noun(Noun::Proper),
        mood: None,
        person: None,
        number: Some(Number::Singular),
        gender: Some(Gender::Feminine),
        case: Some(Case::Genitive),
        voice: None,
        tense: None,
        theme: None,
        contraction: None,
        decl_type: None,
    }
}

/// The corrected analysis of a word the annotations are known to get
/// wrong, by its place or its spelling; `None` for any other word.
pub fn get_word_fix(book: Book, chapter: u8, verse: u8, word: u8, greek: &str) -> (r: Option<Declension>)
    ensures
        r == if (book == Book::Matthew && chapter == 0 && verse == 15 && word == 13) || greek@ == "οναρ"@ {
            Some(onar())
        } else if book == Book::Matthew && chapter == 1 && verse == 5 && word == 15 {
            Some(routh_genitive())
        } else {
            None
        },
{
    let onar = Declension {
        gender: Some(Gender::Neuter),
        number: Some(Number::Singular),
        case: Some(Case::Nominative),
        ..Declension::partial_default(PartOfSpeech::Noun(Noun::Common))
    };
    if book == Book::Matthew && chapter == 0 && verse == 15 && word == 13 {
        return Some(onar);
    }
    if str_eq(greek, "οναρ") {
        return Some(onar);
    }
    if book == Book::Matthew && chapter == 1 && verse == 5 && word == 15 {
        return Some(Declension {
            gender: Some(Gender::Feminine),
            number: Some(Number::Singular),
            case: Some(Case::Genitive),
            ..Declension::partial_default(PartOfSpeech::Noun(Noun::Proper))
        });
    }
    None
}

} // verus!
