//! The plain values that events carry: 256-bit amounts and 160-bit addresses.

use vstd::prelude::*;

verus! {

/// Two to the power 64.
pub open spec fn pow2_64() -> nat {
    0x10000000000000000nat
}

/// Two to the power 128.
pub open spec fn pow2_128() -> nat {
    0x100000000000000000000000000000000nat
}

/// Two to the power 192.
pub open spec fn pow2_192() -> nat {
    0x1000000000000000000000000000000000000000000000000nat
}

/// Two to the power 256: one more than the largest 256-bit amount.
pub open spec fn pow2_256() -> nat {
    0x10000000000000000000000000000000000000000000000000000000000000000nat
}

/// An unsigned 256-bit integer, held as four 64-bit limbs with the least significant first.
#[derive(Clone, Copy, Debug, PartialEq, Eq)]
pub struct Uint256 {
    pub limbs: [u64; 4],
}

impl Uint256 {
    /// The number that the limbs stand for.
    pub open spec fn value(self) -> nat {
        (self.limbs[0] + self.limbs[1] * pow2_64() + self.limbs[2] * pow2_128() + self.limbs[3]
            * pow2_192()) as nat
    }

    /// Zero.
    pub fn zero() -> (out: Self)
        ensures
            out.value() == 0,
            out.limbs@ == seq![0u64, 0u64, 0u64, 0u64],
    {
        Uint256 { limbs: [0, 0, 0, 0] }
    }

    /// The 256-bit integer equal to `low`.
    pub fn from_u64(low: u64) -> (out: Self)
        ensures
            out.value() == low,
            out.limbs@ == seq![low, 0u64, 0u64, 0u64],
    {
        Uint256 { limbs: [low, 0, 0, 0] }
    }

    /// The sum of two amounts, or `None` where it does not fit in 256 bits.
    pub fn checked_add(&self, other: &Uint256) -> (out: Option<Uint256>)
        ensures
            out.is_some() == (self.value() + other.value() < pow2_256()),
            out.is_some() ==> out.unwrap().value() == self.value() + other.value(),
    {
        let (sum, carried) = overflowing_add(self, other);
        if carried {
            None
        } else {
            Some(sum)
        }
    }
}

/// `U256::overflowing_add`: the sum modulo two to the power 256, and whether a carry left the
/// top limb, which is whether the true sum does not fit.
#[verifier::external_body]
pub(crate) fn overflowing_add(a: &Uint256, b: &Uint256) -> (out: (Uint256, bool))
    ensures
        out.0.value() == (a.value() + b.value()) % pow2_256(),
        out.1 == (a.value() + b.value() >= pow2_256()),
{
    let (sum, carried) = ethers_core::types::U256(a.limbs).overflowing_add(
        ethers_core::types::U256(b.limbs),
    );
    (Uint256 { limbs: sum.0 }, carried)
}

/// Two amounts with the same value are the same amount.
pub proof fn lemma_value_injective(a: Uint256, b: Uint256)
    requires
        a.value() == b.value(),
    ensures
        a == b,
{
    let d0 = a.limbs[0] - b.limbs[0];
    let d1 = a.limbs[1] - b.limbs[1];
    let d2 = a.limbs[2] - b.limbs[2];
    let d3 = a.limbs[3] - b.limbs[3];
    let upper0 = d1 + d2 * pow2_64() + d3 * pow2_128();
    assert(d0 + upper0 * pow2_64() == 0);
    assert(upper0 == 0 && d0 == 0);
    let upper1 = d2 + d3 * pow2_64();
    assert(d1 + upper1 * pow2_64() == 0);
    assert(upper1 == 0 && d1 == 0);
    assert(d2 + d3 * pow2_64() == 0);
    assert(d3 == 0 && d2 == 0);
    assert(a.limbs =~= b.limbs);
}

/// A signed 256-bit integer in two's complement, held as the bits of an unsigned one.
#[derive(Clone, Copy, Debug, PartialEq, Eq)]
pub struct Int256 {
    pub bits: Uint256,
}

impl Int256 {
    /// The number that the bits stand for.
    pub open spec fn value(self) -> int {
        if self.bits.value() < pow2_256() / 2 {
            self.bits.value() as int
        } else {
            self.bits.value() - pow2_256()
        }
    }

    /// Zero.
    pub fn zero() -> (out: Self)
        ensures
            out.value() == 0,
            out.bits.limbs@ == seq![0u64, 0u64, 0u64, 0u64],
    {
        Int256 { bits: Uint256::zero() }
    }
}

/// A 160-bit account address, read as a big-endian number: its top 32 bits and its low 128
/// bits.
#[derive(Clone, Copy, Debug, PartialEq, Eq, Structural)]
pub struct Address {
    pub high: u32,
    pub low: u128,
}

impl Address {
    /// The address as a number.
    pub open spec fn value(self) -> nat {
        (self.high * pow2_128() + self.low) as nat
    }

    /// Whether this address is numerically below `other`.
    pub open spec fn below(self, other: Address) -> bool {
        self.high < other.high || (self.high == other.high && self.low < other.low)
    }

    /// The address whose number is `low`.
    pub fn from_low_u64(low: u64) -> (out: Self)
        ensures
            out.value() == low,
            out == (Address { high: 0, low: low as u128 }),
    {
        Address { high: 0, low: low as u128 }
    }

    /// Whether this address comes before `other` in ascending order.
    pub fn precedes(&self, other: &Address) -> (out: bool)
        ensures
            out == self.below(*other),
            out == (self.value() < other.value()),
    {
        self.high < other.high || (self.high == other.high && self.low < other.low)
    }
}

} // verus!
