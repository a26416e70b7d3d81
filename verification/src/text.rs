//! Character-level text helpers shared by the renderer, the parser and the
//! decoders: string/char-vector conversion, string equality, and decimal
//! rendering of integers.

use vstd::prelude::*;

verus! {

/// Relies on `String`'s `FromIterator<char>` impl from std: collecting the
/// characters of a vector yields the string with exactly those characters.
#[verifier::external_body]
pub fn chars_to_string(v: &Vec<char>) -> (s: String)
    ensures
        s@ == v@,
{
    v.iter().collect()
}

/// Append every character of `s` to `out`.
pub fn push_str_chars(out: &mut Vec<char>, s: &str)
    ensures
        final(out)@ == old(out)@ + s@,
{
    let n = s.unicode_len();
    let mut i: usize = 0;
    while i < n
        invariant
            n == s@.len(),
            i <= n,
            out@ == old(out)@ + s@.take(i as int),
        decreases n - i,
    {
        let c = s.get_char(i);
        out.push(c);
        proof {
            assert(s@.take(i + 1) =~= s@.take(i as int).push(s@[i as int]));
        }
        i = i + 1;
    }
    proof {
        assert(s@.take(n as int) =~= s@);
    }
}

/// Character-wise string equality, decided without any trusted comparison.
pub fn str_eq(a: &str, b: &str) -> (r: bool)
    ensures
        r == (a@ == b@),
{
    let an = a.unicode_len();
    let bn = b.unicode_len();
    if an != bn {
        proof {
            assert(a@ != b@);
        }
        return false;
    }
    let mut i: usize = 0;
    while i < an
        invariant
            an == a@.len(),
            an == b@.len(),
            i <= an,
            forall|j: int| 0 <= j < i ==> a@[j] == b@[j],
        decreases an - i,
    {
        if a.get_char(i) != b.get_char(i) {
            return false;
        }
        i = i + 1;
    }
    proof {
        assert(a@ =~= b@);
    }
    true
}

/// The character for one decimal digit.
pub open spec fn dec_digit(d: int) -> char {
    if d == 0 {
        '0'
    } else if d == 1 {
        '1'
    } else if d == 2 {
        '2'
    } else if d == 3 {
        '3'
    } else if d == 4 {
        '4'
    } else if d == 5 {
        '5'
    } else if d == 6 {
        '6'
    } else if d == 7 {
        '7'
    } else if d == 8 {
        '8'
    } else {
        '9'
    }
}

/// The decimal rendering of a natural number, most significant digit first.
pub open spec fn dec_nat(n: nat) -> Seq<char>
    decreases n,
{
    if n < 10 {
        seq![dec_digit(n as int)]
    } else {
        dec_nat(n / 10) + seq![dec_digit((n % 10) as int)]
    }
}

/// The decimal rendering of an integer: a minus sign for negative values.
pub open spec fn dec_int(n: int) -> Seq<char> {
    if n < 0 {
        seq!['-'] + dec_nat((-n) as nat)
    } else {
        dec_nat(n as nat)
    }
}

fn dec_digit_exec(d: u64) -> (c: char)
    requires
        d < 10,
    ensures
        c == dec_digit(d as int),
{
    match d {
        0 => '0',
        1 => '1',
        2 => '2',
        3 => '3',
        4 => '4',
        5 => '5',
        6 => '6',
        7 => '7',
        8 => '8',
        _ => '9',
    }
}

/// Render a `u64` as decimal characters.
pub fn u64_to_chars(n: u64) -> (v: Vec<char>)
    ensures
        v@ == dec_nat(n as nat),
{
    let mut rev: Vec<char> = Vec::new();
    let mut m: u64 = n;
    while m >= 10
        invariant
            dec_nat(n as nat) == dec_nat(m as nat) + rev@.reverse(),
        decreases m,
    {
        let ghost prev = rev@;
        let d = m % 10;
        let c = dec_digit_exec(d);
        rev.push(c);
        proof {
            assert(prev.push(c).reverse() =~= seq![c] + prev.reverse());
        }
        m = m / 10;
    }
    let ghost prev = rev@;
    let c = dec_digit_exec(m);
    rev.push(c);
    proof {
        assert(prev.push(c).reverse() =~= seq![c] + prev.reverse());
        assert(rev@.reverse() == dec_nat(n as nat));
    }
    let len = rev.len();
    let mut out: Vec<char> = Vec::new();
    let mut i: usize = len;
    while i > 0
        invariant
            len == rev@.len(),
            i <= len,
            out@.len() == len - i,
            forall|j: int| 0 <= j < out@.len() ==> out@[j] == rev@[len - 1 - j],
        decreases i,
    {
        i = i - 1;
        out.push(rev[i]);
    }
    proof {
        assert(out@ =~= rev@.reverse());
    }
    out
}

/// Render an `i64` as decimal characters, with a leading minus sign when
/// negative.
pub fn i64_to_chars(n: i64) -> (v: Vec<char>)
    ensures
        v@ == dec_int(n as int),
{
    if n >= 0 {
        u64_to_chars(n as u64)
    } else {
        let mag: u64 = ((-(n + 1)) as u64) + 1;
        assert(mag as nat == (-(n as int)) as nat);
        let digits = u64_to_chars(mag);
        let mut out: Vec<char> = Vec::new();
        out.push('-');
        let mut i: usize = 0;
        let len = digits.len();
        while i < len
            invariant
                len == digits@.len(),
                i <= len,
                out@ == seq!['-'] + digits@.take(i as int),
            decreases len - i,
        {
            out.push(digits[i]);
            proof {
                assert(digits@.take(i + 1) =~= digits@.take(i as int).push(digits@[i as int]));
            }
            i = i + 1;
        }
        proof {
            assert(digits@.take(len as int) =~= digits@);
        }
        out
    }
}

/// Render an `i64` as a decimal string.
pub fn i64_to_string(n: i64) -> (s: String)
    ensures
        s@ == dec_int(n as int),
{
    let v = i64_to_chars(n);
    chars_to_string(&v)
}

/// Render a `u64` as a decimal string.
pub fn u64_to_string(n: u64) -> (s: String)
    ensures
        s@ == dec_nat(n as nat),
{
    let v = u64_to_chars(n);
    chars_to_string(&v)
}

} // verus!
