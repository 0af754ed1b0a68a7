//! Amounts of value, of any size.

use vstd::prelude::*;

verus! {

/// The number that a string of base-256 digits stands for, most significant
/// digit first. The empty string stands for zero.
pub open spec fn be_value(digits: Seq<u8>) -> nat
    decreases digits.len(),
{
    if digits.len() == 0 {
        0
    } else {
        be_value(digits.drop_last()) * 256 + digits.last() as nat
    }
}

/// The digits of `digits` above its `low` least significant ones.
spec fn upper_digits(digits: Seq<u8>, low: int) -> Seq<u8> {
    if low < digits.len() {
        digits.take(digits.len() - low)
    } else {
        Seq::empty()
    }
}

/// The digit of weight `256^low`, zero above the most significant digit.
spec fn digit_at(digits: Seq<u8>, low: int) -> u8 {
    if low < digits.len() {
        digits[digits.len() - 1 - low]
    } else {
        0
    }
}

/// Splits the digits above position `low` into the digit at position `low`
/// and the digits above it.
proof fn lemma_upper_digits_step(digits: Seq<u8>, low: int)
    requires
        0 <= low,
    ensures
        be_value(upper_digits(digits, low)) == be_value(upper_digits(digits, low + 1)) * 256
            + digit_at(digits, low),
{
    if low < digits.len() {
        let upper = upper_digits(digits, low);
        assert(upper.drop_last() =~= upper_digits(digits, low + 1));
    }
}

/// Appending a digit multiplies the value by 256 and adds the digit.
proof fn lemma_push_digit(digits: Seq<u8>, digit: u8)
    ensures
        be_value(digits.push(digit)) == be_value(digits) * 256 + digit,
{
    assert(digits.push(digit).drop_last() =~= digits);
}

/// A zero in front does not change the value.
proof fn lemma_leading_zero(digits: Seq<u8>)
    requires
        digits.len() > 0,
        digits[0] == 0,
    ensures
        be_value(digits) == be_value(digits.skip(1)),
    decreases digits.len(),
{
    if digits.len() == 1 {
        assert(be_value(digits.drop_last()) == 0);
    } else {
        lemma_leading_zero(digits.drop_last());
        assert(digits.drop_last().skip(1) =~= digits.skip(1).drop_last());
    }
}

/// A non-negative amount of value without an upper bound.
#[derive(Debug)]
pub struct Amount {
    digits: Vec<u8>,
}

impl View for Amount {
    type V = nat;

    closed spec fn view(&self) -> nat {
        be_value(self.digits@)
    }
}

impl Amount {
    /// The amount written in base 256, most significant byte first. Zeros in
    /// front are allowed, and no bytes at all mean zero.
    pub fn from_bytes_be(bytes: Vec<u8>) -> (amount: Amount)
        ensures
            amount@ == be_value(bytes@),
    {
        Amount { digits: bytes }
    }

    /// This amount in base 256, most significant byte first, in the shortest
    /// form: no zero in front, and no bytes at all for zero.
    pub fn to_bytes_be(&self) -> (bytes: Vec<u8>)
        ensures
            be_value(bytes@) == self@,
            bytes@.len() > 0 ==> bytes@[0] != 0,
    {
        let len: usize = self.digits.len();
        let mut start: usize = 0;
        proof {
            assert(self.digits@.skip(0) =~= self.digits@);
        }
        while start < len && self.digits[start] == 0
            invariant
                start <= len,
                len == self.digits@.len(),
                be_value(self.digits@.skip(start as int)) == be_value(self.digits@),
            decreases len - start,
        {
            proof {
                lemma_leading_zero(self.digits@.skip(start as int));
                assert(self.digits@.skip(start as int).skip(1) =~= self.digits@.skip(start + 1));
            }
            start += 1;
        }
        let mut bytes: Vec<u8> = Vec::new();
        let mut i: usize = start;
        while i < len
            invariant
                start <= i <= len,
                len == self.digits@.len(),
                bytes@ == self.digits@.subrange(start as int, i as int),
            decreases len - i,
        {
            bytes.push(self.digits[i]);
            i += 1;
        }
        proof {
            assert(bytes@ =~= self.digits@.skip(start as int));
        }
        bytes
    }

    /// Twice this amount.
    pub fn doubled(&self) -> (twice: Amount)
        ensures
            twice@ == 2 * self@,
    {
        let len: usize = self.digits.len();
        let mut digits: Vec<u8> = Vec::new();
        if len > 0 && self.digits[0] >= 128 {
            digits.push(1);
            proof {
                lemma_push_digit(Seq::empty(), 1);
            }
        }
        let mut i: usize = 0;
        while i < len
            invariant
                i <= len,
                len == self.digits@.len(),
                be_value(digits@) == 2 * be_value(self.digits@.take(i as int)) + (if i < len
                    && self.digits@[i as int] >= 128 {
                    1nat
                } else {
                    0nat
                }),
            decreases len - i,
        {
            let low: u8 = (self.digits[i] % 128) * 2;
            let carry: u8 = if i + 1 < len && self.digits[i + 1] >= 128 {
                1
            } else {
                0
            };
            proof {
                lemma_push_digit(digits@, (low + carry) as u8);
                assert(self.digits@.take(i + 1).drop_last() =~= self.digits@.take(i as int));
            }
            digits.push(low + carry);
            i += 1;
        }
        proof {
            assert(self.digits@.take(len as int) =~= self.digits@);
        }
        Amount { digits }
    }
}

impl Clone for Amount {
    fn clone(&self) -> (copy: Amount)
        ensures
            copy@ == self@,
    {
        let digits = self.digits.clone();
        proof {
            assert(digits@ =~= self.digits@);
        }
        Amount { digits }
    }
}

impl PartialEq for Amount {
    /// Amounts are equal when they stand for the same number, however many
    /// zeros either was written with.
    fn eq(&self, other: &Amount) -> (same: bool) {
        let len: usize = self.digits.len();
        let other_len: usize = other.digits.len();
        let mut i: usize = 0;
        proof {
            assert(upper_digits(self.digits@, 0) =~= self.digits@);
            assert(upper_digits(other.digits@, 0) =~= other.digits@);
        }
        while i < len || i < other_len
            invariant
                len == self.digits@.len(),
                other_len == other.digits@.len(),
                (be_value(self.digits@) == be_value(other.digits@)) <==> (be_value(
                    upper_digits(self.digits@, i as int),
                ) == be_value(upper_digits(other.digits@, i as int))),
            decreases
                    (if len > other_len {
                        len
                    } else {
                        other_len
                    }) - i,
        {
            let digit: u8 = if i < len {
                self.digits[len - 1 - i]
            } else {
                0
            };
            let other_digit: u8 = if i < other_len {
                other.digits[other_len - 1 - i]
            } else {
                0
            };
            proof {
                lemma_upper_digits_step(self.digits@, i as int);
                lemma_upper_digits_step(other.digits@, i as int);
            }
            if digit != other_digit {
                return false;
            }
            i += 1;
        }
        true
    }
}

impl Eq for Amount {

}

impl vstd::std_specs::cmp::PartialEqSpecImpl for Amount {
    open spec fn obeys_eq_spec() -> bool {
        true
    }

    open spec fn eq_spec(&self, other: &Amount) -> bool {
        self@ == other@
    }
}

} // verus!
