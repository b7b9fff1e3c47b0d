//! Exact decimal numbers: the values of number literals.

use vstd::prelude::*;

verus! {

/// The mathematical content of a [`Decimal`]: its digits, most significant
/// first, and how many of them stand behind the decimal point.
pub struct DecimalView {
    pub digits: Seq<u8>,
    pub scale: nat,
}

/// The number that a sequence of decimal digits spells, most significant
/// digit first.
pub open spec fn digits_value(digits: Seq<u8>) -> nat
    decreases digits.len(),
{
    if digits.len() == 0 {
        0
    } else {
        10 * digits_value(digits.drop_last()) + digits.last() as nat
    }
}

/// The first digits of a number spell no more than all of them.
pub proof fn lemma_digits_value_grows(digits: Seq<u8>, first: int)
    requires
        0 <= first <= digits.len(),
    ensures
        digits_value(digits.take(first)) <= digits_value(digits),
    decreases digits.len() - first,
{
    if first < digits.len() {
        lemma_digits_value_grows(digits, first + 1);
        assert(digits.take(first + 1).drop_last() =~= digits.take(first));
    } else {
        assert(digits.take(first) =~= digits);
    }
}

/// The character that spells the digit `d`.
pub open spec fn digit_char(d: u8) -> char {
    (d + 48) as char
}

impl DecimalView {
    /// Every digit is below ten, and at least one digit stands before the
    /// decimal point.
    pub open spec fn wf(self) -> bool {
        &&& self.scale < self.digits.len()
        &&& forall|i: int| 0 <= i < self.digits.len() ==> #[trigger] self.digits[i] < 10
    }

    /// The number that the digits spell when the decimal point is left
    /// out. The value of the decimal is this numerator divided by ten to
    /// the power of the scale.
    pub open spec fn numerator(self) -> nat {
        digits_value(self.digits)
    }

    /// How many digits stand before the decimal point.
    pub open spec fn whole_len(self) -> int {
        self.digits.len() - self.scale
    }

    /// The number as it is written: the whole digits, and, where there are
    /// fraction digits, a point and the fraction digits.
    pub open spec fn spelling(self) -> Seq<char> {
        let written = self.digits.map_values(|d: u8| digit_char(d));
        if self.scale == 0 {
            written
        } else {
            written.subrange(0, self.whole_len()).push('.') + written.subrange(
                self.whole_len(),
                written.len() as int,
            )
        }
    }
}

/// An exact decimal number: a run of decimal digits with a decimal point
/// behind all but the last `scale` of them.
#[derive(Debug, PartialEq, Eq)]
pub struct Decimal {
    digits: Vec<u8>,
    scale: usize,
}

impl View for Decimal {
    type V = DecimalView;

    closed spec fn view(&self) -> DecimalView {
        DecimalView { digits: self.digits@, scale: self.scale as nat }
    }
}

impl Clone for Decimal {
    fn clone(&self) -> (copy: Decimal)
        ensures
            copy@ == self@,
    {
        proof {
            use_type_invariant(self);
        }
        let digits: Vec<u8> = self.digits.clone();
        Decimal { digits, scale: self.scale }
    }
}

impl Decimal {
    #[verifier::type_invariant]
    spec fn valid(&self) -> bool {
        self@.wf()
    }

    /// The decimal with the given digits, most significant first, of which
    /// the last `scale` stand behind the decimal point. There is none where
    /// a digit is above nine or no digit is left before the point.
    pub fn new(digits: Vec<u8>, scale: usize) -> (made: Option<Decimal>)
        ensures
            made is Some <==> (DecimalView { digits: digits@, scale: scale as nat }).wf(),
            made matches Some(d) ==> d@ == (DecimalView { digits: digits@, scale: scale as nat }),
    {
        if scale >= digits.len() {
            return None;
        }
        let mut at: usize = 0;
        while at < digits.len()
            invariant
                at <= digits.len(),
                forall|i: int| 0 <= i < at ==> #[trigger] digits@[i] < 10,
            decreases digits.len() - at,
        {
            if digits[at] >= 10 {
                return None;
            }
            at = at + 1;
        }
        Some(Decimal { digits, scale })
    }

    /// The decimal with the given digits and scale, which are known to
    /// be well formed.
    pub(crate) fn assemble(digits: Vec<u8>, scale: usize) -> (made: Decimal)
        requires
            (DecimalView { digits: digits@, scale: scale as nat }).wf(),
        ensures
            made@ == (DecimalView { digits: digits@, scale: scale as nat }),
    {
        Decimal { digits, scale }
    }

    /// The digits, most significant first.
    pub fn digits(&self) -> (digits: &Vec<u8>)
        ensures
            digits@ == self@.digits,
            self@.wf(),
    {
        proof {
            use_type_invariant(self);
        }
        &self.digits
    }

    /// How many of the digits stand behind the decimal point.
    pub fn scale(&self) -> (scale: usize)
        ensures
            scale == self@.scale,
            self@.wf(),
    {
        proof {
            use_type_invariant(self);
        }
        self.scale
    }

    /// The number without its decimal point, where it fits the type: the
    /// value is this numerator over ten to the power of the scale.
    pub fn numerator(&self) -> (numerator: Option<u64>)
        ensures
            numerator is Some <==> self@.numerator() <= u64::MAX,
            numerator matches Some(n) ==> n == self@.numerator(),
    {
        let mut sum: u64 = 0;
        let mut at: usize = 0;
        while at < self.digits.len()
            invariant
                at <= self.digits.len(),
                sum == digits_value(self.digits@.take(at as int)),
            decreases self.digits.len() - at,
        {
            proof {
                assert(self.digits@.take(at + 1).drop_last() =~= self.digits@.take(at as int));
                lemma_digits_value_grows(self.digits@, at + 1);
            }
            let tenfold: u64 = match sum.checked_mul(10) {
                Some(tenfold) => tenfold,
                None => {
                    return None;
                },
            };
            sum = match tenfold.checked_add(self.digits[at] as u64) {
                Some(sum) => sum,
                None => {
                    return None;
                },
            };
            at = at + 1;
        }
        assert(self.digits@.take(at as int) =~= self.digits@);
        Some(sum)
    }

    /// The number as it is written.
    pub fn to_string(&self) -> (text: String)
        ensures
            text@ == self@.spelling(),
    {
        proof {
            use_type_invariant(self);
        }
        let whole: usize = self.digits.len() - self.scale;
        let ghost written = self.digits@.map_values(|d: u8| digit_char(d));
        let mut text: String = String::new();
        let mut at: usize = 0;
        while at < self.digits.len()
            invariant
                at <= self.digits.len(),
                whole == self.digits.len() - self.scale,
                0 < whole,
                written == self.digits@.map_values(|d: u8| digit_char(d)),
                forall|i: int| 0 <= i < self.digits.len() ==> #[trigger] self.digits@[i] < 10,
                at <= whole ==> text@ == written.subrange(0, at as int),
                at > whole ==> text@ == written.subrange(0, whole as int).push('.')
                    + written.subrange(whole as int, at as int),
            decreases self.digits.len() - at,
        {
            if at == whole {
                text.push('.');
            }
            let d: u8 = self.digits[at];
            text.push((d + 48) as char);
            at = at + 1;
        }
        text
    }
}

} // verus!
