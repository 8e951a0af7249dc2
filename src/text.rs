//! Character-level access to strings.
use vstd::prelude::*;

verus! {

/// The characters of `s`, in order.
pub(crate) fn chars_of(s: &str) -> (r: Vec<char>)
    ensures
        r@ == s@,
{
    let n = s.unicode_len();
    let mut out: Vec<char> = Vec::new();
    let mut i: usize = 0;
    while i < n
        invariant
            n == s@.len(),
            0 <= i <= n,
            out@ == s@.subrange(0, i as int),
        decreases n - i,
    {
        out.push(s.get_char(i));
        assert(s@.subrange(0, i + 1) =~= s@.subrange(0, i as int).push(s@[i as int]));
        i = i + 1;
    }
    assert(s@.subrange(0, n as int) =~= s@);
    out
}

/// Relies on `String: FromIterator<&char>`: the string made of the characters of `v`, in order.
#[verifier::external_body]
pub(crate) fn string_of(v: &Vec<char>) -> (r: String)
    ensures
        r@ == v@,
{
    v.iter().collect()
}

/// Whether `s` is made of ASCII decimal digits only.
pub open spec fn all_digits(s: Seq<char>) -> bool {
    forall|i: int| 0 <= i < s.len() ==> '0' <= #[trigger] s[i] <= '9'
}

/// The value of a string of decimal digits.
pub open spec fn digits_value(s: Seq<char>) -> nat
    decreases s.len(),
{
    if s.len() == 0 {
        0
    } else {
        digits_value(s.drop_last()) * 10 + ((s.last() as u32 - '0' as u32) as nat)
    }
}

/// Parses a positive decimal integer that fits in `usize`; `None` for
/// anything else (a sign, a blank, an empty string, zero, an overflow).
pub fn parse_positive(s: &str) -> (r: Option<usize>)
    ensures
        r is Some <==> (s@.len() > 0 && all_digits(s@) && 0 < digits_value(s@) <= usize::MAX),
        r is Some ==> r->0 == digits_value(s@),
{
    let cs = chars_of(s);
    if cs.len() == 0 {
        return None;
    }
    let mut acc: usize = 0;
    let mut i: usize = 0;
    let mut overflow = false;
    while i < cs.len()
        invariant
            0 <= i <= cs.len(),
            cs@ == s@,
            all_digits(cs@.subrange(0, i as int)),
            !overflow ==> acc == digits_value(cs@.subrange(0, i as int)),
            overflow ==> digits_value(cs@.subrange(0, i as int)) > usize::MAX,
        decreases cs.len() - i,
    {
        let c = cs[i];
        if c < '0' || c > '9' {
            assert(!all_digits(s@)) by {
                assert(s@[i as int] == c);
            }
            return None;
        }
        let d = (c as u32 - '0' as u32) as usize;
        let ghost pre = cs@.subrange(0, i as int);
        let ghost next = cs@.subrange(0, i + 1);
        assert(next.drop_last() == pre);
        assert(next.last() == c);
        proof {
            lemma_digits_monotone(pre, next);
        }
        if !overflow {
            if acc > (usize::MAX - d) / 10 {
                overflow = true;
                assert(digits_value(next) > usize::MAX) by (nonlinear_arith)
                    requires
                        digits_value(next) == acc * 10 + d,
                        acc > (usize::MAX - d) / 10,
                        d <= 9,
                ;
            } else {
                assert(acc * 10 + d <= usize::MAX) by (nonlinear_arith)
                    requires
                        acc <= (usize::MAX - d) / 10,
                        d <= 9,
                ;
                acc = acc * 10 + d;
            }
        }
        i = i + 1;
    }
    assert(cs@.subrange(0, cs.len() as int) == s@);
    if overflow || acc == 0 {
        None
    } else {
        Some(acc)
    }
}

proof fn lemma_digits_monotone(pre: Seq<char>, next: Seq<char>)
    requires
        next.len() == pre.len() + 1,
        next.drop_last() == pre,
        '0' <= next.last() <= '9',
    ensures
        digits_value(next) >= digits_value(pre),
        digits_value(next) == digits_value(pre) * 10 + ((next.last() as u32 - '0' as u32) as nat),
{
}

} // verus!
