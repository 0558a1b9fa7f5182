//! Complex amplitudes held as the IEEE-754 bit patterns of their two 64-bit
//! float parts, and the near-zero test on those patterns.
use vstd::prelude::*;

verus! {

/// Bit pattern of the near-zero threshold `1e-30`.
pub const NEAR_ZERO_BITS: u64 = 0x39b4_484b_feeb_c2a0;

/// Every bit of a 64-bit float but its sign.
pub const MAGNITUDE_MASK: u64 = 0x7fff_ffff_ffff_ffff;

/// `|v| < 1e-30` for the float with bit pattern `x`. For floats other than
/// NaN, magnitudes are ordered as their patterns without the sign bit; a NaN
/// pattern lies above every finite one, so a NaN is never near zero.
pub open spec fn is_small(x: u64) -> bool {
    (x & MAGNITUDE_MASK) < NEAR_ZERO_BITS
}

/// A complex number as the bit patterns of its real and imaginary parts.
#[derive(Clone, Copy, Debug, PartialEq, Eq, Structural, Hash)]
pub struct ComplexBits {
    pub re: u64,
    pub im: u64,
}

pub open spec fn near_zero(c: ComplexBits) -> bool {
    is_small(c.re) && is_small(c.im)
}

/// The 128-bit cell holding `c`: the real part in the low half, the
/// imaginary part in the high half.
pub open spec fn packed(c: ComplexBits) -> int {
    c.re as int + c.im as int * 0x1_0000_0000_0000_0000
}

impl ComplexBits {
    /// `0 + 0i`.
    pub fn zero() -> (r: ComplexBits)
        ensures
            r.re == 0 && r.im == 0,
            near_zero(r),
    {
        assert((0u64 & MAGNITUDE_MASK) < NEAR_ZERO_BITS) by (bit_vector);
        ComplexBits { re: 0, im: 0 }
    }

    pub fn is_zero(&self) -> (r: bool)
        ensures
            r == near_zero(*self),
    {
        (self.re & MAGNITUDE_MASK) < NEAR_ZERO_BITS && (self.im & MAGNITUDE_MASK) < NEAR_ZERO_BITS
    }

    pub fn is_nonzero(&self) -> (r: bool)
        ensures
            r == !near_zero(*self),
    {
        !self.is_zero()
    }

    pub fn pack(&self) -> (r: u128)
        ensures
            r == packed(*self),
    {
        let re = self.re;
        let im = self.im;
        let r = (re as u128) | ((im as u128) << 64u128);
        assert(r == re as u128 + im as u128 * 0x1_0000_0000_0000_0000) by (bit_vector)
            requires
                r == (re as u128) | ((im as u128) << 64u128),
        ;
        r
    }

    pub fn unpack(v: u128) -> (r: ComplexBits)
        ensures
            packed(r) == v,
    {
        let re = v as u64;
        let im = (v >> 64u128) as u64;
        assert(re as u128 + im as u128 * 0x1_0000_0000_0000_0000 == v) by (bit_vector)
            requires
                re == v as u64,
                im == (v >> 64u128) as u64,
        ;
        ComplexBits { re, im }
    }
}

/// Packing loses nothing.
pub proof fn lemma_pack_unpack(c: ComplexBits, d: ComplexBits)
    ensures
        packed(c) == packed(d) <==> c == d,
{
    let (a, b, x, y) = (c.re as int, c.im as int, d.re as int, d.im as int);
    assert(a + b * 0x1_0000_0000_0000_0000 == x + y * 0x1_0000_0000_0000_0000 <==> (a == x && b
        == y)) by (nonlinear_arith)
        requires
            0 <= a < 0x1_0000_0000_0000_0000,
            0 <= x < 0x1_0000_0000_0000_0000,
            0 <= b,
            0 <= y,
    ;
}

} // verus!
