use malachite::num::conversion::traits::FromSciString;
use malachite::Rational;
use vstd::prelude::*;

verus! {

/// Whether `c` is a decimal digit.
pub open spec fn is_digit(c: char) -> bool {
    '0' <= c <= '9'
}

/// Whether `s` is one or more digits.
pub open spec fn all_digits(s: Seq<char>) -> bool {
    s.len() > 0 && forall|i: int| 0 <= i < s.len() ==> is_digit(#[trigger] s[i])
}

/// Whether `u` is digits, optionally followed by a `.` and digits.
pub open spec fn is_unsigned_numeral(u: Seq<char>) -> bool {
    all_digits(u) || exists|k: int|
        0 < k < u.len() - 1 && #[trigger] u[k] == '.' && all_digits(u.subrange(0, k))
            && all_digits(u.subrange(k + 1, u.len() as int))
}

/// Whether `s` has the shape of a numeral: an optional `-`, digits, and
/// optionally a `.` followed by digits.
pub open spec fn is_numeral(s: Seq<char>) -> bool {
    if s.len() > 0 && s[0] == '-' {
        is_unsigned_numeral(s.drop_first())
    } else {
        is_unsigned_numeral(s)
    }
}

/// The exact rational that a numeral denotes: its digits, read as one integer,
/// over ten to the number of digits after the point.
pub uninterp spec fn exact_rational(s: Seq<char>) -> Rational;

/// Relies on `FromSciString::from_sci_string` of malachite's `Rational`, which reads
/// a plain decimal literally ("0.333" is 333/1000) and succeeds on every string
/// of the numeral shape (an optional sign, digits, an optional point and digits).
#[verifier::external_body]
pub(crate) fn rational_from_numeral(s: &str) -> (r: Rational)
    requires
        is_numeral(s@),
    ensures
        r == exact_rational(s@),
{
    Rational::from_sci_string(s).unwrap()
}

} // verus!
