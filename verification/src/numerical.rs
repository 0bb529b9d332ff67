//! The sign marker shared by both big-integer encodings, and the
//! construction of a big integer from its wire form.

use vstd::prelude::*;

use crate::format::le_magnitude_value;
use crate::BigInteger;
use crate::DecodingError;

verus! {

/// The sign of a sign-magnitude big integer.
#[derive(Debug, Clone, Copy, PartialEq, Eq, Structural)]
pub enum Sign {
    Plus,
    Minus,
}

/// Interpret a wire sign byte: 0 is positive, 1 is negative, anything else
/// is a decode failure.
pub fn to_sign(i: u8) -> (r: Result<Sign, DecodingError>)
    ensures
        i == 0 ==> r == Ok::<Sign, DecodingError>(Sign::Plus),
        i == 1 ==> r == Ok::<Sign, DecodingError>(Sign::Minus),
        i > 1 ==> r == Err::<Sign, DecodingError>(DecodingError::DecodingFailure),
{
    match i {
        0 => Ok(Sign::Plus),
        1 => Ok(Sign::Minus),
        _ => Err(DecodingError::DecodingFailure),
    }
}

/// A most-significant zero byte does not change a magnitude's value.
proof fn lemma_le_value_drop_zero(s: Seq<u8>)
    requires
        s.len() > 0,
        s.last() == 0,
    ensures
        le_magnitude_value(s) == le_magnitude_value(s.drop_last()),
    decreases s.len(),
{
    if s.len() == 1 {
        assert(s.drop_last() =~= Seq::<u8>::empty());
        assert(s.skip(1) =~= Seq::<u8>::empty());
        assert(le_magnitude_value(s.skip(1)) == 0);
    } else {
        assert(s.skip(1).len() > 0);
        assert(s.skip(1).last() == 0);
        lemma_le_value_drop_zero(s.skip(1));
        assert(s.drop_last().len() > 0);
        assert(s.drop_last().skip(1) =~= s.skip(1).drop_last());
        assert(s.drop_last()[0] == s[0]);
        assert(le_magnitude_value(s) == (s[0] as nat) + 0x100 * le_magnitude_value(s.skip(1)));
        assert(le_magnitude_value(s.drop_last()) == (s[0] as nat) + 0x100 * le_magnitude_value(
            s.drop_last().skip(1),
        ));
    }
}

impl BigInteger {
    /// Build a big integer from a wire sign and a least-significant-first
    /// magnitude, normalizing away most-significant zero bytes (and a
    /// negative zero).
    pub fn from_sign_magnitude(sign: Sign, magnitude: Vec<u8>) -> (r: BigInteger)
        ensures
            r.wf(),
            r.value() == if sign == Sign::Minus {
                -(le_magnitude_value(magnitude@) as int)
            } else {
                le_magnitude_value(magnitude@) as int
            },
    {
        let mut mag = magnitude;
        while mag.len() > 0 && mag[mag.len() - 1] == 0
            invariant
                le_magnitude_value(mag@) == le_magnitude_value(magnitude@),
            decreases mag.len(),
        {
            proof {
                lemma_le_value_drop_zero(mag@);
            }
            mag.pop();
        }
        let negative = match sign {
            Sign::Minus => mag.len() > 0,
            Sign::Plus => false,
        };
        proof {
            if mag@.len() == 0 {
                assert(le_magnitude_value(mag@) == 0);
            }
        }
        BigInteger { negative, magnitude: mag }
    }
}

} // verus!
