//! Parsing a decimal string into a `usize`.
//!
//! Build configurations hand the walkers a record length as a decimal
//! string; this module turns it into a number, rejecting any non-digit.

use vstd::prelude::*;

use vstd::string::StrSliceExecFns;

verus! {

/// A byte that is not an ASCII decimal digit was found.
#[derive(Clone, Copy, Debug, PartialEq, Eq, Structural)]
pub enum ParseIntError {
    InvalidDigit,
}

/// An ASCII decimal digit.
pub open spec fn is_digit(c: char) -> bool {
    0x30 <= c as u32 <= 0x39
}

/// Every character of the sequence is an ASCII decimal digit.
pub open spec fn all_digits(s: Seq<char>) -> bool {
    forall|i: int| 0 <= i < s.len() ==> is_digit(#[trigger] s[i])
}

/// The number written by a sequence of decimal digits, most significant
/// first.
pub open spec fn spec_decimal(s: Seq<char>) -> int
    recommends
        all_digits(s),
    decreases s.len(),
{
    if s.len() == 0 {
        0
    } else {
        spec_decimal(s.drop_last()) * 10 + (s.last() as u32 - 0x30)
    }
}

/// A digit string names a non-negative number.
pub proof fn lemma_decimal_nonneg(s: Seq<char>)
    requires
        all_digits(s),
    ensures
        spec_decimal(s) >= 0,
    decreases s.len(),
{
    if s.len() > 0 {
        assert forall|i: int| 0 <= i < s.drop_last().len() implies is_digit(
            #[trigger] s.drop_last()[i],
        ) by {
            assert(s.drop_last()[i] == s[i]);
        }
        lemma_decimal_nonneg(s.drop_last());
    }
}

/// A prefix of a digit string names a number no larger than the whole
/// string does.
pub proof fn lemma_decimal_prefix_le(s: Seq<char>, k: int)
    requires
        all_digits(s),
        0 <= k <= s.len(),
    ensures
        spec_decimal(s.take(k)) <= spec_decimal(s),
    decreases s.len(),
{
    if k < s.len() {
        let s2 = s.drop_last();
        assert forall|i: int| 0 <= i < s2.len() implies is_digit(#[trigger] s2[i]) by {
            assert(s2[i] == s[i]);
        }
        assert(s.take(k) =~= s2.take(k));
        lemma_decimal_prefix_le(s2, k);
        lemma_decimal_nonneg(s2);
    } else {
        assert(s.take(k) =~= s);
    }
}

/// The value one digit contributes at its position: the digit times the
/// power of ten already computed for that position.  A character outside
/// the digit range is the error.
pub fn parse_byte(b: u8, pow10: usize) -> (r: Result<usize, ParseIntError>)
    requires
        0x30 <= b <= 0x39 ==> (b - 0x30) * pow10 <= usize::MAX,
    ensures
        match r {
            Ok(v) => 0x30 <= b <= 0x39 && v == (b - 0x30) * pow10,
            Err(e) => !(0x30 <= b <= 0x39) && e == ParseIntError::InvalidDigit,
        },
{
    let d = b.wrapping_sub(0x30);
    if d > 9 {
        Err(ParseIntError::InvalidDigit)
    } else {
        Ok((d as usize) * pow10)
    }
}

/// Parse a decimal string, reporting any non-digit as an error.
///
/// The bounds keep the parse inside the domain on which a number can be
/// returned at all: at most 20 digits, and a named value that fits the
/// machine word.
pub fn try_parse_usize(b: &str) -> (r: Result<usize, ParseIntError>)
    requires
        b@.len() <= 20,
        all_digits(b@) ==> spec_decimal(b@) <= usize::MAX,
    ensures
        match r {
            Ok(v) => all_digits(b@) && v == spec_decimal(b@),
            Err(e) => !all_digits(b@) && e == ParseIntError::InvalidDigit,
        },
{
    let ghost s = b@;
    let len = b.unicode_len();

    let mut index: usize = 0;
    while index < len
        invariant
            index <= len,
            len == s.len(),
            s == b@,
            all_digits(s.take(index as int)),
        decreases len - index,
    {
        let v = b.get_char(index) as u32;
        if v < 0x30 || v > 0x39 {
            proof {
                assert(!all_digits(s)) by {
                    assert(0 <= index < s.len() && !is_digit(s[index as int]));
                }
            }
            return Err(ParseIntError::InvalidDigit);
        }
        proof {
            assert forall|i: int| 0 <= i < index + 1 implies is_digit(
                #[trigger] s.take(index as int + 1)[i],
            ) by {
                if i < index {
                    assert(s.take(index as int + 1)[i] == s.take(index as int)[i]);
                }
            }
        }
        index = index + 1;
    }
    proof {
        assert(s.take(len as int) =~= s);
    }

    let mut result: usize = 0;
    let mut index: usize = 0;
    while index < len
        invariant
            index <= len,
            len == s.len(),
            s == b@,
            all_digits(s),
            spec_decimal(s) <= usize::MAX,
            result == spec_decimal(s.take(index as int)),
        decreases len - index,
    {
        let v = b.get_char(index) as u32;
        proof {
            assert(s.take(index as int + 1).drop_last() =~= s.take(index as int));
            assert(s.take(index as int + 1).last() == s[index as int]);
            lemma_decimal_prefix_le(s, index as int + 1);
            lemma_decimal_nonneg(s.take(index as int + 1));
        }
        result = result * 10 + ((v - 0x30) as usize);
        index = index + 1;
    }
    proof {
        assert(s.take(len as int) =~= s);
    }
    Ok(result)
}

/// Parse a decimal string that is known to be all digits.
pub fn parse_usize(b: &str) -> (r: usize)
    requires
        b@.len() <= 20,
        all_digits(b@),
        spec_decimal(b@) <= usize::MAX,
    ensures
        r == spec_decimal(b@),
{
    match try_parse_usize(b) {
        Ok(v) => v,
        Err(_) => {
            proof {
                assert(false);
            }
            0
        },
    }
}

} // verus!
