//! Relevance scores. A score is a 64-bit IEEE 754 number, held as its bits and compared through
//! them; it is produced and divided elsewhere.

use vstd::prelude::*;
use crate::json::{Json, JsonView, Number, NumberView};

verus! {

/// A relevance score: one number, held as its bits and as the JSON value it is shown as.
#[derive(Debug)]
pub struct Score {
    bits: u64,
    shown: Json,
}

/// What a [`Score`] holds.
pub struct ScoreView {
    pub bits: u64,
    pub shown: JsonView,
}

impl View for Score {
    type V = ScoreView;

    closed spec fn view(&self) -> ScoreView {
        ScoreView { bits: self.bits, shown: self.shown@ }
    }
}

/// The bits and the JSON value are those of one number: a finite one is shown as the number that
/// reads back as its bits, and any other as null.
pub open spec fn is_score(score: ScoreView) -> bool {
    if is_finite(score.bits) {
        score.shown matches JsonView::Number(NumberView::Float(text)) && float_read(text) == Some(
            Some(score.bits),
        )
    } else {
        score.shown == JsonView::Null
    }
}

impl Score {
    #[verifier::type_invariant]
    spec fn is_one_number(self) -> bool {
        is_score(self.view())
    }

    /// The score that is shown with the given text, where that is the text of a finite number.
    pub fn finite(text: String) -> (r: Option<Score>)
        ensures
            match float_read(text@) {
                Some(Some(bits)) => {
                    &&& r matches Some(score)
                    &&& score@ == (ScoreView {
                        bits,
                        shown: JsonView::Number(NumberView::Float(text@)),
                    })
                },
                _ => r is None,
            },
    {
        match read_float(text.as_str()) {
            Some(Some(bits)) => Some(Score { bits, shown: Json::Number(Number::Float(text)) }),
            _ => None,
        }
    }

    /// The score that is no finite number, where the bits are those of one that is not.
    pub fn not_finite(bits: u64) -> (r: Option<Score>)
        ensures
            r is Some <==> !is_finite(bits),
            r matches Some(score) ==> score@ == (ScoreView { bits, shown: JsonView::Null }),
    {
        if bits % 0x8000_0000_0000_0000 < 0x7ff0_0000_0000_0000 {
            None
        } else {
            Some(Score { bits, shown: Json::Null })
        }
    }

    /// The bits that scores are compared by.
    pub fn bits(&self) -> (r: u64)
        ensures
            r == self@.bits,
            is_score(self@),
    {
        proof {
            use_type_invariant(self);
        }
        self.bits
    }

    /// The JSON value the score is shown as.
    pub fn shown(&self) -> (r: Json)
        ensures
            r@ == self@.shown,
            is_score(self@),
    {
        proof {
            use_type_invariant(self);
        }
        self.shown.copy()
    }

    /// A score that holds the same.
    pub fn copy(&self) -> (r: Score)
        ensures
            r@ == self@,
    {
        proof {
            use_type_invariant(self);
        }
        Score { bits: self.bits, shown: self.shown.copy() }
    }
}

// ---------------------------------------------------------------------------------------------
// Reading numbers
// ---------------------------------------------------------------------------------------------

/// The 64-bit floating-point number that a text stands for, if it stands for one: the bits of a
/// finite number, and an inner `None` for an infinity or a NaN.
pub uninterp spec fn float_read(text: Seq<char>) -> Option<Option<u64>>;

/// Reads a text as a 64-bit floating-point number: `str::parse` reads it,
/// `serde_json::Number::from_f64` takes a finite number and refuses any other, and
/// `serde_json::Number::as_f64` hands the finite one back, of which the bits are taken. The
/// outcome is a function of the text, and the bits are those of a finite number; which number a
/// text stands for is left to that parser.
#[verifier::external_body]
pub(crate) fn read_float(text: &str) -> (r: Option<Option<u64>>)
    ensures
        r == float_read(text@),
        r matches Some(Some(bits)) ==> is_finite(bits),
{
    let number = serde_json::Number::from_f64(text.parse().ok()?);
    Some(number.and_then(|n| n.as_f64()).map(|x| x.to_bits()))
}

// ---------------------------------------------------------------------------------------------
// Comparing numbers
// ---------------------------------------------------------------------------------------------

/// The bits below the sign bit: the larger, the larger the absolute value.
pub open spec fn magnitude(bits: u64) -> int {
    bits as int % 0x8000_0000_0000_0000
}

/// The bits are those of a value that is not a number: every exponent bit is set and some bit
/// below them is too.
pub open spec fn is_nan(bits: u64) -> bool {
    magnitude(bits) > 0x7ff0_0000_0000_0000
}

/// The bits are those of a finite number: some exponent bit is not set.
pub open spec fn is_finite(bits: u64) -> bool {
    magnitude(bits) < 0x7ff0_0000_0000_0000
}

/// A whole number in whose order the numbers stand; both zeros have the same one.
pub open spec fn rank(bits: u64) -> int {
    if bits >= 0x8000_0000_0000_0000 {
        -magnitude(bits)
    } else {
        magnitude(bits)
    }
}

/// `a < b` on the numbers; false where either is not a number.
pub open spec fn is_below(a: u64, b: u64) -> bool {
    !is_nan(a) && !is_nan(b) && rank(a) < rank(b)
}

/// `a <= b` on the numbers; false where either is not a number.
pub open spec fn is_at_most(a: u64, b: u64) -> bool {
    !is_nan(a) && !is_nan(b) && rank(a) <= rank(b)
}

/// `a == b` on the numbers; false where either is not a number.
pub open spec fn is_equal(a: u64, b: u64) -> bool {
    !is_nan(a) && !is_nan(b) && rank(a) == rank(b)
}

/// The larger of two numbers; where one is not a number, the other.
pub open spec fn larger(a: u64, b: u64) -> u64 {
    if is_nan(a) || is_below(a, b) {
        b
    } else {
        a
    }
}

fn nan(bits: u64) -> (r: bool)
    ensures
        r == is_nan(bits),
{
    bits % 0x8000_0000_0000_0000 > 0x7ff0_0000_0000_0000
}

fn ranked(bits: u64) -> (r: i64)
    ensures
        r == rank(bits),
{
    let size: i64 = (bits % 0x8000_0000_0000_0000) as i64;
    if bits >= 0x8000_0000_0000_0000 {
        -size
    } else {
        size
    }
}

/// Whether `a < b`.
pub fn below(a: u64, b: u64) -> (r: bool)
    ensures
        r == is_below(a, b),
{
    !nan(a) && !nan(b) && ranked(a) < ranked(b)
}

/// Whether `a <= b`.
pub fn at_most(a: u64, b: u64) -> (r: bool)
    ensures
        r == is_at_most(a, b),
{
    !nan(a) && !nan(b) && ranked(a) <= ranked(b)
}

/// Whether `a == b`.
pub fn equal(a: u64, b: u64) -> (r: bool)
    ensures
        r == is_equal(a, b),
{
    !nan(a) && !nan(b) && ranked(a) == ranked(b)
}

/// Whether `b` replaces `a` as the larger of the two.
pub fn exceeds(b: u64, a: u64) -> (r: bool)
    ensures
        r == (is_nan(a) || is_below(a, b)),
        larger(a, b) == if r { b } else { a },
{
    nan(a) || below(a, b)
}

// ---------------------------------------------------------------------------------------------
// Laws
// ---------------------------------------------------------------------------------------------

/// Numbers without a sign bit stand in the order of their bits, those with one in the order
/// turned round, and the former above the latter, but that both zeros are equal. What is not a
/// number stands in no order.
pub proof fn numbers_stand_in_the_order_of_their_bits(a: u64, b: u64)
    ensures
        a <= 0x7ff0_0000_0000_0000 && b <= 0x7ff0_0000_0000_0000 ==> {
            &&& is_below(a, b) <==> a < b
            &&& is_at_most(a, b) <==> a <= b
            &&& is_equal(a, b) <==> a == b
        },
        0x8000_0000_0000_0000 <= a <= 0xfff0_0000_0000_0000 && 0x8000_0000_0000_0000 <= b
            <= 0xfff0_0000_0000_0000 ==> {
            &&& is_below(a, b) <==> a > b
            &&& is_at_most(a, b) <==> a >= b
            &&& is_equal(a, b) <==> a == b
        },
        0x8000_0000_0000_0000 <= a <= 0xfff0_0000_0000_0000 && b <= 0x7ff0_0000_0000_0000 ==> {
            &&& is_at_most(a, b)
            &&& is_below(a, b) <==> !(a == 0x8000_0000_0000_0000 && b == 0)
            &&& is_equal(a, b) <==> (a == 0x8000_0000_0000_0000 && b == 0)
            &&& !is_below(b, a)
        },
        0x7ff0_0000_0000_0000 < a < 0x8000_0000_0000_0000 || a > 0xfff0_0000_0000_0000 ==> {
            &&& !is_below(a, b) && !is_below(b, a)
            &&& !is_at_most(a, b) && !is_at_most(b, a)
            &&& !is_equal(a, b) && !is_equal(b, a)
        },
{
}

/// The larger of two numbers is one of them, and neither is above it; what is not a number gives
/// way to what is one.
pub proof fn the_larger_is_not_exceeded(a: u64, b: u64)
    ensures
        larger(a, b) == a || larger(a, b) == b,
        !is_below(larger(a, b), a),
        !is_below(larger(a, b), b),
        is_nan(larger(a, b)) ==> is_nan(a) && is_nan(b),
{
}

} // verus!
