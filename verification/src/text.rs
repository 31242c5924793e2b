//! Character-level helpers shared by the validation and formatting code:
//! conversions between `&str` and `Vec<char>`, substring search, and
//! decimal rendering of integers.

use vstd::prelude::*;
use vstd::string::StrSliceExecFns;
use vstd::string::StringExecFns;

verus! {

/// The characters of `s`, one vector element per unicode character.
pub fn str_to_chars(s: &str) -> (v: Vec<char>)
    ensures
        v@ == s@,
{
    let n = s.unicode_len();
    let mut v: Vec<char> = Vec::new();
    let mut i: usize = 0;
    while i < n
        invariant
            i <= n,
            n == s@.len(),
            v@ == s@.subrange(0, i as int),
        decreases n - i,
    {
        let c = s.get_char(i);
        v.push(c);
        i = i + 1;
        proof {
            assert(v@ =~= s@.subrange(0, i as int));
        }
    }
    proof {
        assert(v@ =~= s@);
    }
    v
}

/// Relies on `String`'s `FromIterator<char>` impl: collecting chars yields
/// the string whose characters are exactly those chars, in order.
#[verifier::external_body]
pub fn chars_to_string(v: &Vec<char>) -> (s: String)
    ensures
        s@ == v@,
{
    v.iter().collect()
}

/// Whether the chars in `v` spell exactly the string `s`.
pub fn chars_eq_str(v: &Vec<char>, s: &str) -> (b: bool)
    ensures
        b == (v@ == s@),
{
    let n = s.unicode_len();
    if v.len() != n {
        return false;
    }
    let mut i: usize = 0;
    while i < n
        invariant
            i <= n,
            n == s@.len(),
            v@.len() == n,
            forall|j: int| 0 <= j < i ==> v@[j] == s@[j],
        decreases n - i,
    {
        let c = s.get_char(i);
        if v[i] != c {
            return false;
        }
        i = i + 1;
    }
    proof {
        assert(v@ =~= s@);
    }
    true
}

/// Whether `p` occurs in `s` starting at position `k`.
pub open spec fn occurs_at(s: Seq<char>, p: Seq<char>, k: int) -> bool {
    0 <= k && k + p.len() <= s.len() && s.subrange(k, k + p.len()) == p
}

/// Whether `p` occurs somewhere in `s`.
pub open spec fn contains_seq(s: Seq<char>, p: Seq<char>) -> bool {
    exists|k: int| occurs_at(s, p, k)
}

/// Whether the chars of `p` occur in `v` starting at position `k`.
pub fn chars_match_at(v: &Vec<char>, p: &Vec<char>, k: usize) -> (b: bool)
    requires
        k <= v@.len(),
    ensures
        b == occurs_at(v@, p@, k as int),
{
    if p.len() > v.len() - k {
        return false;
    }
    let vl = v.len();
    let mut i: usize = 0;
    while i < p.len()
        invariant
            i <= p@.len(),
            k + p@.len() <= vl,
            vl == v@.len(),
            forall|j: int| 0 <= j < i ==> v@[k + j] == p@[j],
        decreases p@.len() - i,
    {
        if v[k + i] != p[i] {
            return false;
        }
        i = i + 1;
    }
    proof {
        assert(v@.subrange(k as int, k + p@.len()) =~= p@);
    }
    true
}

/// Whether the chars of `p` occur anywhere in `v`.
pub fn chars_contain(v: &Vec<char>, p: &Vec<char>) -> (b: bool)
    ensures
        b == contains_seq(v@, p@),
{
    if p.len() == 0 {
        proof {
            assert(v@.subrange(0, 0) =~= p@);
            assert(occurs_at(v@, p@, 0));
        }
        return true;
    }
    if p.len() > v.len() {
        return false;
    }
    let bound = v.len() - p.len() + 1;
    let mut k: usize = 0;
    while k < bound
        invariant
            k <= bound,
            bound == v@.len() - p@.len() + 1,
            p@.len() >= 1,
            k <= v@.len(),
            forall|j: int| 0 <= j < k ==> !occurs_at(v@, p@, j),
        decreases bound - k,
    {
        if chars_match_at(v, p, k) {
            return true;
        }
        k = k + 1;
    }
    proof {
        assert(forall|j: int| occurs_at(v@, p@, j) ==> 0 <= j < bound);
    }
    false
}

/// Appends every char of `p` to `out`, in order.
pub fn push_all(out: &mut Vec<char>, p: &Vec<char>)
    ensures
        final(out)@ == old(out)@ + p@,
{
    let mut i: usize = 0;
    while i < p.len()
        invariant
            i <= p@.len(),
            out@ =~= old(out)@ + p@.subrange(0, i as int),
        decreases p@.len() - i,
    {
        out.push(p[i]);
        i = i + 1;
        proof {
            assert(out@ =~= old(out)@ + p@.subrange(0, i as int));
        }
    }
    proof {
        assert(p@.subrange(0, p@.len() as int) =~= p@);
        assert(out@ =~= old(out)@ + p@);
    }
}

/// An ASCII decimal digit.
pub open spec fn is_digit_char(c: char) -> bool {
    '0' <= c && c <= '9'
}

/// Numeric value of an ASCII decimal digit.
pub open spec fn digit_value(c: char) -> int {
    c as int - '0' as int
}

/// The digit character for a value in 0..=9.
pub open spec fn digit_char(n: int) -> char {
    if n == 0 {
        '0'
    } else if n == 1 {
        '1'
    } else if n == 2 {
        '2'
    } else if n == 3 {
        '3'
    } else if n == 4 {
        '4'
    } else if n == 5 {
        '5'
    } else if n == 6 {
        '6'
    } else if n == 7 {
        '7'
    } else if n == 8 {
        '8'
    } else {
        '9'
    }
}

/// Decimal representation of a non-negative integer, most significant digit first.
pub open spec fn dec_str(n: int) -> Seq<char>
    recommends
        n >= 0,
    decreases n,
{
    if n < 10 {
        seq![digit_char(n)]
    } else {
        dec_str(n / 10).push(digit_char(n % 10))
    }
}

fn digit_char_exec(n: u64) -> (c: char)
    requires
        n < 10,
    ensures
        c == digit_char(n as int),
{
    if n == 0 {
        '0'
    } else if n == 1 {
        '1'
    } else if n == 2 {
        '2'
    } else if n == 3 {
        '3'
    } else if n == 4 {
        '4'
    } else if n == 5 {
        '5'
    } else if n == 6 {
        '6'
    } else if n == 7 {
        '7'
    } else if n == 8 {
        '8'
    } else {
        '9'
    }
}

/// The decimal digits of `n`, most significant first.
pub fn u64_to_chars(n: u64) -> (v: Vec<char>)
    ensures
        v@ == dec_str(n as int),
{
    let mut rev: Vec<char> = Vec::new();
    let mut m: u64 = n;
    while m >= 10
        invariant
            dec_str(n as int) =~= dec_str(m as int) + rev@.reverse(),
        decreases m,
    {
        let d = m % 10;
        rev.push(digit_char_exec(d));
        proof {
            assert(rev@.reverse() =~= seq![digit_char(d as int)] + rev@.drop_last().reverse());
            assert(dec_str(m as int) =~= dec_str(m as int / 10) + seq![digit_char(m as int % 10)]);
            assert(dec_str(m as int) + rev@.drop_last().reverse() =~= dec_str(m as int / 10)
                + rev@.reverse());
        }
        m = m / 10;
    }
    let mut v: Vec<char> = Vec::new();
    v.push(digit_char_exec(m));
    let mut i: usize = rev.len();
    while i > 0
        invariant
            i <= rev@.len(),
            v@ =~= seq![digit_char(m as int)] + rev@.reverse().subrange(
                0,
                rev@.len() - i as int,
            ),
        decreases i,
    {
        i = i - 1;
        v.push(rev[i]);
        proof {
            assert(rev@.reverse()[rev@.len() - i as int - 1] == rev@[i as int]);
            assert(v@ =~= seq![digit_char(m as int)] + rev@.reverse().subrange(
                0,
                rev@.len() - i as int,
            ));
        }
    }
    proof {
        assert(rev@.reverse().subrange(0, rev@.len() as int) =~= rev@.reverse());
        assert(dec_str(m as int) =~= seq![digit_char(m as int)]);
        assert(v@ =~= dec_str(n as int));
    }
    v
}

/// Decimal representation of a possibly-negative integer.
pub open spec fn dec_str_signed(n: int) -> Seq<char> {
    if n < 0 {
        seq!['-'] + dec_str(-n)
    } else {
        dec_str(n)
    }
}

/// The decimal digits of `n`, with a leading minus sign when negative.
pub fn i64_to_chars(n: i64) -> (v: Vec<char>)
    ensures
        v@ == dec_str_signed(n as int),
{
    if n >= 0 {
        u64_to_chars(n as u64)
    } else {
        let mag: u64 = (-(n as i128)) as u64;
        let digits = u64_to_chars(mag);
        let mut v: Vec<char> = Vec::new();
        v.push('-');
        let mut i: usize = 0;
        while i < digits.len()
            invariant
                i <= digits@.len(),
                v@ =~= seq!['-'] + digits@.subrange(0, i as int),
            decreases digits@.len() - i,
        {
            v.push(digits[i]);
            i = i + 1;
            proof {
                assert(v@ =~= seq!['-'] + digits@.subrange(0, i as int));
            }
        }
        proof {
            assert(digits@.subrange(0, digits@.len() as int) =~= digits@);
            assert(v@ =~= dec_str_signed(n as int));
        }
        v
    }
}

} // verus!
