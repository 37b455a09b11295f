//! Reading fixed-point values from their text form: a [`Q64`] is written as
//! the decimal integer of its raw value, a [`Q64Vec`] as two such integers
//! separated by a comma.
use vstd::prelude::*;
use vstd::string::StrSliceExecFns;

use crate::fixed::{fits_i64, Q64};
use crate::vector::Q64Vec;

verus! {

/// Why a text does not denote a value.
#[derive(Clone, Copy, Debug, PartialEq, Eq, Structural)]
pub enum TextError {
    /// A part is not a decimal integer that fits in an `i64`.
    InvalidNumber,
    /// A vector has no comma.
    MissingPart,
    /// A vector has more than one comma.
    TooManyParts,
}

pub open spec fn is_digit(c: char) -> bool {
    '0' <= c <= '9'
}

/// The value of a string of decimal digits.
pub open spec fn digits_value(s: Seq<char>) -> int
    decreases s.len(),
{
    if s.len() == 0 {
        0
    } else {
        digits_value(s.drop_last()) * 10 + (s.last() as int - '0' as int)
    }
}

/// One or more decimal digits.
pub open spec fn is_digits(s: Seq<char>) -> bool {
    s.len() > 0 && forall|i: int| 0 <= i < s.len() ==> is_digit(#[trigger] s[i])
}

/// An optional `+` or `-` followed by one or more decimal digits.
pub open spec fn is_decimal(s: Seq<char>) -> bool {
    if s.len() > 0 && (s[0] == '+' || s[0] == '-') {
        is_digits(s.drop_first())
    } else {
        is_digits(s)
    }
}

/// The value of a decimal integer.
pub open spec fn decimal_value(s: Seq<char>) -> int {
    if s.len() > 0 && s[0] == '-' {
        -digits_value(s.drop_first())
    } else if s.len() > 0 && s[0] == '+' {
        digits_value(s.drop_first())
    } else {
        digits_value(s)
    }
}

/// `s` is a decimal integer within the range of `i64`.
pub open spec fn is_i64_text(s: Seq<char>) -> bool {
    is_decimal(s) && fits_i64(decimal_value(s))
}

/// Relies on `str::parse::<i64>`, which std documents to accept exactly an
/// optional `+` or `-` sign followed by one or more ASCII digits, with a value
/// in range, and to fail on anything else.
#[verifier::external_body]
fn parse_i64(s: &str) -> (r: Option<i64>)
    ensures
        r is Some <==> is_i64_text(s@),
        r matches Some(v) ==> v == decimal_value(s@),
{
    s.parse::<i64>().ok()
}

/// Index of the first comma in `s` at or after `from`, or `s.len()`.
pub open spec fn comma_at_or_after(s: Seq<char>, from: int) -> int
    decreases s.len() - from,
{
    if from >= s.len() {
        s.len() as int
    } else if s[from] == ',' {
        from
    } else {
        comma_at_or_after(s, from + 1)
    }
}

/// The pieces of `s` between commas, as `str::split(',')` yields them.
pub open spec fn split_commas(s: Seq<char>) -> Seq<Seq<char>>
    decreases s.len(),
{
    let i = comma_at_or_after(s, 0);
    if i >= s.len() {
        seq![s]
    } else {
        proof {
            lemma_comma_bounds(s, 0);
        }
        seq![s.take(i)] + split_commas(s.skip(i + 1))
    }
}

/// What reading `s` as a vector gives, part by part in the order the parts
/// are read: the first part, then whether a second exists, then the second,
/// then whether a third exists.
pub open spec fn pair_from_text(s: Seq<char>) -> Result<(int, int), TextError> {
    let parts = split_commas(s);
    if !is_i64_text(parts[0]) {
        Err(TextError::InvalidNumber)
    } else if parts.len() < 2 {
        Err(TextError::MissingPart)
    } else if !is_i64_text(parts[1]) {
        Err(TextError::InvalidNumber)
    } else if parts.len() > 2 {
        Err(TextError::TooManyParts)
    } else {
        Ok((decimal_value(parts[0]), decimal_value(parts[1])))
    }
}

/// Where the search for a comma stops, and that it skips no comma.
pub proof fn lemma_comma_bounds(s: Seq<char>, from: int)
    requires
        0 <= from,
    ensures
        from <= comma_at_or_after(s, from) || from > s.len(),
        comma_at_or_after(s, from) <= s.len(),
        comma_at_or_after(s, from) < s.len() ==> s[comma_at_or_after(s, from)] == ',',
        forall|j: int| from <= j < comma_at_or_after(s, from) ==> s[j] != ',',
    decreases s.len() - from,
{
    if from < s.len() && s[from] != ',' {
        lemma_comma_bounds(s, from + 1);
    }
}

/// The first comma of `s` at or after `from` is the first comma of
/// `s.skip(from)`, shifted.
proof fn lemma_comma_skip(s: Seq<char>, from: int)
    requires
        0 <= from <= s.len(),
    ensures
        comma_at_or_after(s, from) == from + comma_at_or_after(s.skip(from), 0),
{
    let t = s.skip(from);
    lemma_comma_bounds(s, from);
    lemma_comma_bounds(t, 0);
    let a = comma_at_or_after(s, from);
    let b = comma_at_or_after(t, 0);
    if a < from + b {
        assert(t[a - from] == s[a]);
    } else if from + b < a {
        assert(t[b] == s[from + b]);
    }
}

/// Finds the first comma of `s` at or after `from`.
fn find_comma(s: &str, from: usize) -> (r: usize)
    requires
        from <= s@.len(),
    ensures
        r == comma_at_or_after(s@, from as int),
{
    let n = s.unicode_len();
    let mut i = from;
    while i < n
        invariant
            from <= i <= n,
            n == s@.len(),
            comma_at_or_after(s@, from as int) == comma_at_or_after(s@, i as int),
        decreases n - i,
    {
        if s.get_char(i) == ',' {
            return i;
        }
        i = i + 1;
    }
    i
}

impl Q64 {
    /// The number whose raw value is the decimal integer `s`.
    pub fn from_text(s: &str) -> (r: Result<Q64, TextError>)
        ensures
            is_i64_text(s@) ==> (r matches Ok(q) && q.0 == decimal_value(s@)),
            !is_i64_text(s@) ==> r == Err::<Q64, TextError>(TextError::InvalidNumber),
    {
        match parse_i64(s) {
            Some(v) => Ok(Q64(v)),
            None => Err(TextError::InvalidNumber),
        }
    }
}

impl Q64Vec {
    /// The vector written as the raw values of its coordinates, `x,y`.
    pub fn from_text(s: &str) -> (r: Result<Q64Vec, TextError>)
        ensures
            pair_from_text(s@) matches Ok((x, y)) ==> (r matches Ok(v) && v.x.0 == x && v.y.0 == y),
            pair_from_text(s@) matches Err(e) ==> r == Err::<Q64Vec, TextError>(e),
    {
        let ghost sv = s@;
        let n = s.unicode_len();
        let first = find_comma(s, 0);
        proof {
            lemma_comma_bounds(sv, 0);
            assert(split_commas(sv)[0] == sv.take(first as int));
        }
        let x = match parse_i64(s.substring_char(0, first)) {
            Some(v) => v,
            None => {
                return Err(TextError::InvalidNumber);
            },
        };
        if first == n {
            return Err(TextError::MissingPart);
        }
        let second = find_comma(s, first + 1);
        let ghost rest = sv.skip(first + 1);
        proof {
            lemma_comma_bounds(sv, first + 1);
            lemma_comma_skip(sv, first + 1);
            lemma_comma_bounds(rest, 0);
            assert(split_commas(sv) == seq![sv.take(first as int)] + split_commas(rest));
            assert(split_commas(rest)[0] =~= sv.subrange(first + 1, second as int));
        }
        let y = match parse_i64(s.substring_char(first + 1, second)) {
            Some(v) => v,
            None => {
                return Err(TextError::InvalidNumber);
            },
        };
        if second < n {
            proof {
                let j = comma_at_or_after(rest, 0);
                assert(j == second - first - 1);
                assert(j < rest.len());
                assert(split_commas(rest.skip(j + 1)).len() >= 1);
                assert(split_commas(rest).len() >= 2);
            }
            return Err(TextError::TooManyParts);
        }
        proof {
            assert(split_commas(rest).len() == 1);
        }
        Ok(Q64Vec { x: Q64(x), y: Q64(y) })
    }
}

} // verus!
