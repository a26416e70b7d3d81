//! The duration validator: short duration strings of the form
//! `<integer><unit>` with a single unit and a non-zero value.

use vstd::prelude::*;
use crate::error::Error;
use crate::is_digit_char;

verus! {

/// Length of the longest prefix of `s` made of decimal digits.
pub open spec fn digit_prefix_len(s: Seq<char>) -> int
    decreases s.len(),
{
    if s.len() == 0 || !is_digit_char(s[0]) {
        0
    } else {
        1 + digit_prefix_len(s.drop_first())
    }
}

/// True for the recognized time units: `ms`, `s`, `m`, `h`, `d`, `w`, `y`.
pub open spec fn is_valid_unit(u: Seq<char>) -> bool {
    u == seq!['m', 's'] || u == seq!['s'] || u == seq!['m'] || u == seq!['h'] || u == seq!['d']
        || u == seq!['w'] || u == seq!['y']
}

/// True when some digit of `d` is not zero.
pub open spec fn has_nonzero_digit(d: Seq<char>) -> bool {
    exists|j: int| 0 <= j < d.len() && d[j] != '0'
}

/// A valid duration: one or more digits, not all zero, followed by exactly
/// one recognized unit.
pub open spec fn is_valid_duration(s: Seq<char>) -> bool {
    let k = digit_prefix_len(s);
    0 < k < s.len() && is_valid_unit(s.skip(k)) && has_nonzero_digit(s.take(k))
}

/// The rule an invalid duration string broke.
pub open spec fn duration_error_reason(s: Seq<char>) -> Seq<char> {
    let k = digit_prefix_len(s);
    if s.len() == 0 {
        "duration string must not be empty"@
    } else if k == 0 {
        "duration string must begin with a number"@
    } else if k == s.len() {
        "duration string lacks a time unit"@
    } else if !is_valid_unit(s.skip(k)) {
        "duration string holds an unrecognized time unit"@
    } else {
        "duration value must not be zero"@
    }
}

proof fn lemma_digit_prefix(s: Seq<char>)
    ensures
        0 <= digit_prefix_len(s) <= s.len(),
        forall|j: int| 0 <= j < digit_prefix_len(s) ==> is_digit_char(#[trigger] s[j]),
        digit_prefix_len(s) < s.len() ==> !is_digit_char(s[digit_prefix_len(s)]),
    decreases s.len(),
{
    if s.len() == 0 || !is_digit_char(s[0]) {
    } else {
        lemma_digit_prefix(s.drop_first());
        assert forall|j: int| 0 <= j < digit_prefix_len(s) implies is_digit_char(
            #[trigger] s[j],
        ) by {
            if j > 0 {
                assert(s.drop_first()[j - 1] == s[j]);
            }
        }
        if digit_prefix_len(s) < s.len() {
            assert(s.drop_first()[digit_prefix_len(s) - 1] == s[digit_prefix_len(s)]);
        }
    }
}

/// The digit prefix is exactly the set of leading digit positions: if every
/// position before `i` is a digit and position `i` is not (or is the end),
/// then the digit prefix has length `i`.
proof fn lemma_digit_prefix_exact(s: Seq<char>, i: int)
    requires
        0 <= i <= s.len(),
        forall|j: int| 0 <= j < i ==> is_digit_char(#[trigger] s[j]),
        i < s.len() ==> !is_digit_char(s[i]),
    ensures
        digit_prefix_len(s) == i,
    decreases s.len(),
{
    if s.len() == 0 {
    } else if i == 0 {
    } else {
        assert(is_digit_char(s[0]));
        assert forall|j: int| 0 <= j < i - 1 implies is_digit_char(#[trigger] s.drop_first()[j]) by {
            assert(s.drop_first()[j] == s[j + 1]);
        }
        if i - 1 < s.drop_first().len() {
            assert(s.drop_first()[i - 1] == s[i]);
        }
        lemma_digit_prefix_exact(s.drop_first(), i - 1);
    }
}

proof fn lemma_unit_singleton(c: char)
    ensures
        is_valid_unit(seq![c]) == (c == 's' || c == 'm' || c == 'h' || c == 'd' || c == 'w' || c
            == 'y'),
{
    if c == 's' {
        assert(seq![c] =~= seq!['s']);
    }
    if c == 'm' {
        assert(seq![c] =~= seq!['m']);
    }
    if c == 'h' {
        assert(seq![c] =~= seq!['h']);
    }
    if c == 'd' {
        assert(seq![c] =~= seq!['d']);
    }
    if c == 'w' {
        assert(seq![c] =~= seq!['w']);
    }
    if c == 'y' {
        assert(seq![c] =~= seq!['y']);
    }
    if is_valid_unit(seq![c]) {
        assert(seq![c].len() == 1);
        if seq![c] == seq!['s'] {
            assert(seq![c][0] == 's');
        }
        if seq![c] == seq!['m'] {
            assert(seq![c][0] == 'm');
        }
        if seq![c] == seq!['h'] {
            assert(seq![c][0] == 'h');
        }
        if seq![c] == seq!['d'] {
            assert(seq![c][0] == 'd');
        }
        if seq![c] == seq!['w'] {
            assert(seq![c][0] == 'w');
        }
        if seq![c] == seq!['y'] {
            assert(seq![c][0] == 'y');
        }
    }
}

proof fn lemma_unit_pair(c0: char, c1: char)
    ensures
        is_valid_unit(seq![c0, c1]) == (c0 == 'm' && c1 == 's'),
{
    if c0 == 'm' && c1 == 's' {
        assert(seq![c0, c1] =~= seq!['m', 's']);
    }
    if is_valid_unit(seq![c0, c1]) {
        assert(seq![c0, c1].len() == 2);
        if seq![c0, c1] == seq!['m', 's'] {
            assert(seq![c0, c1][0] == 'm');
            assert(seq![c0, c1][1] == 's');
        }
    }
}

/// Validate a short duration string against the grammar
/// `<integer><unit>` with units `ms`, `s`, `m`, `h`, `d`, `w`, `y` and a
/// non-zero value. Returns `InvalidDuration` with the exact rule broken.
pub fn validate_duration(d: &str) -> (r: Result<(), Error>)
    ensures
        r is Ok <==> is_valid_duration(d@),
        r matches Err(e) ==> e@ == (crate::error::ErrorSpec::InvalidDuration {
            reason: duration_error_reason(d@),
        }),
{
    let n = d.unicode_len();
    let mut i: usize = 0;
    let mut nonzero: bool = false;
    let mut hit_nondigit: bool = false;
    while i < n && !hit_nondigit
        invariant
            n == d@.len(),
            i <= n,
            forall|j: int| 0 <= j < i ==> is_digit_char(#[trigger] d@[j]),
            nonzero == exists|j: int| 0 <= j < i && d@[j] != '0',
            hit_nondigit ==> i < n && !is_digit_char(d@[i as int]),
        decreases n - i + (if hit_nondigit { 0int } else { 1int }),
    {
        let c = d.get_char(i);
        if '0' <= c && c <= '9' {
            if c != '0' {
                nonzero = true;
            }
            i = i + 1;
        } else {
            hit_nondigit = true;
        }
    }
    proof {
        lemma_digit_prefix_exact(d@, i as int);
    }
    if n == 0 {
        return Err(
            Error::InvalidDuration {
                reason: String::from_str("duration string must not be empty"),
            },
        );
    }
    if i == 0 {
        return Err(
            Error::InvalidDuration {
                reason: String::from_str("duration string must begin with a number"),
            },
        );
    }
    if i == n {
        return Err(
            Error::InvalidDuration {
                reason: String::from_str("duration string lacks a time unit"),
            },
        );
    }
    let unit_ok: bool = if n - i == 1 {
        let c = d.get_char(i);
        proof {
            assert(d@.skip(i as int) =~= seq![d@[i as int]]);
            lemma_unit_singleton(d@[i as int]);
        }
        c == 's' || c == 'm' || c == 'h' || c == 'd' || c == 'w' || c == 'y'
    } else if n - i == 2 {
        let c0 = d.get_char(i);
        let c1 = d.get_char(i + 1);
        proof {
            assert(d@.skip(i as int) =~= seq![d@[i as int], d@[i + 1]]);
            lemma_unit_pair(d@[i as int], d@[i + 1]);
        }
        c0 == 'm' && c1 == 's'
    } else {
        proof {
            assert(d@.skip(i as int).len() > 2);
        }
        false
    };
    if !unit_ok {
        return Err(
            Error::InvalidDuration {
                reason: String::from_str("duration string holds an unrecognized time unit"),
            },
        );
    }
    if !nonzero {
        proof {
            assert(forall|j: int|
                0 <= j < d@.take(i as int).len() ==> #[trigger] d@.take(i as int)[j] == d@[j]);
        }
        return Err(
            Error::InvalidDuration {
                reason: String::from_str("duration value must not be zero"),
            },
        );
    }
    proof {
        let k = digit_prefix_len(d@);
        let witness = choose|j: int| 0 <= j < i && d@[j] != '0';
        assert(d@.take(k)[witness] == d@[witness]);
    }
    Ok(())
}

} // verus!
