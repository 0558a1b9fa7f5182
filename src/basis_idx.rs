//! Computational-basis labels packed into one 64-bit word.
use vstd::prelude::*;

verus! {

/// Index of a qubit; bit `q` of a basis label belongs to qubit `q`.
pub type QubitIndex = usize;

/// Number of qubits a `BasisIdx64` can hold.
pub const MAX_QUBITS: usize = 64;

/// Whether bit `q` of `x` is set.
pub open spec fn bit(x: u64, q: u64) -> bool {
    (x >> q) & 1u64 == 1u64
}

/// `x` with bit `q` set.
pub open spec fn set_bit(x: u64, q: u64) -> u64 {
    x | (1u64 << q)
}

/// `x` with bit `q` cleared.
pub open spec fn unset_bit(x: u64, q: u64) -> u64 {
    x & !(1u64 << q)
}

/// `x` with bit `q` inverted.
pub open spec fn flip_bit(x: u64, q: u64) -> u64 {
    x ^ (1u64 << q)
}

/// `x` with bits `a` and `b` exchanged.
pub open spec fn swap_bits(x: u64, a: u64, b: u64) -> u64 {
    if bit(x, a) == bit(x, b) {
        x
    } else {
        flip_bit(flip_bit(x, a), b)
    }
}

/// `x` with bit `q` forced to `v`.
pub open spec fn put_bit(x: u64, q: u64, v: bool) -> u64 {
    if v {
        set_bit(x, q)
    } else {
        unset_bit(x, q)
    }
}

/// What each single-bit operation does to every bit of the word.
pub proof fn lemma_bit_ops(x: u64, q: u64, r: u64)
    requires
        q < 64,
        r < 64,
    ensures
        bit(set_bit(x, q), r) == (q == r || bit(x, r)),
        bit(unset_bit(x, q), r) == (q != r && bit(x, r)),
        bit(flip_bit(x, q), r) == (if q == r { !bit(x, r) } else { bit(x, r) }),
{
    assert(bit(set_bit(x, q), r) == (q == r || bit(x, r))) by (bit_vector)
        requires
            q < 64,
            r < 64,
    ;
    assert(bit(unset_bit(x, q), r) == (q != r && bit(x, r))) by (bit_vector)
        requires
            q < 64,
            r < 64,
    ;
    assert(bit(flip_bit(x, q), r) == (if q == r { !bit(x, r) } else { bit(x, r) })) by (bit_vector)
        requires
            q < 64,
            r < 64,
    ;
}

/// A label splits into its bit `t` and the rest; bits other than `t` agree
/// between labels whose rests agree.
pub proof fn lemma_split(x: u64, y: u64, t: u64, c: u64)
    requires
        t < 64,
        c < 64,
    ensures
        (y == x) == (unset_bit(y, t) == unset_bit(x, t) && bit(y, t) == bit(x, t)),
        (y == flip_bit(x, t)) == (unset_bit(y, t) == unset_bit(x, t) && bit(y, t) != bit(x, t)),
        (y == unset_bit(x, t)) == (unset_bit(y, t) == unset_bit(x, t) && !bit(y, t)),
        (y == set_bit(x, t)) == (unset_bit(y, t) == unset_bit(x, t) && bit(y, t)),
        (unset_bit(y, t) == unset_bit(x, t) && c != t) ==> bit(y, c) == bit(x, c),
        unset_bit(x, t) != set_bit(x, t),
        !bit(unset_bit(x, t), t),
        bit(set_bit(x, t), t),
        bit(flip_bit(x, t), t) != bit(x, t),
        unset_bit(flip_bit(x, t), t) == unset_bit(x, t),
        unset_bit(set_bit(x, t), t) == unset_bit(x, t),
        unset_bit(unset_bit(x, t), t) == unset_bit(x, t),
{
    assert((y == x) == (unset_bit(y, t) == unset_bit(x, t) && bit(y, t) == bit(x, t))) by (bit_vector)
        requires
            t < 64,
    ;
    assert((y == flip_bit(x, t)) == (unset_bit(y, t) == unset_bit(x, t) && bit(y, t) != bit(x, t)))
        by (bit_vector)
        requires
            t < 64,
    ;
    assert((y == unset_bit(x, t)) == (unset_bit(y, t) == unset_bit(x, t) && !bit(y, t))) by (bit_vector)
        requires
            t < 64,
    ;
    assert((y == set_bit(x, t)) == (unset_bit(y, t) == unset_bit(x, t) && bit(y, t))) by (bit_vector)
        requires
            t < 64,
    ;
    assert((unset_bit(y, t) == unset_bit(x, t) && c != t) ==> bit(y, c) == bit(x, c)) by (bit_vector)
        requires
            t < 64,
            c < 64,
    ;
    assert(unset_bit(x, t) != set_bit(x, t) && !bit(unset_bit(x, t), t) && bit(set_bit(x, t), t)
        && bit(flip_bit(x, t), t) != bit(x, t)) by (bit_vector)
        requires
            t < 64,
    ;
    assert(unset_bit(flip_bit(x, t), t) == unset_bit(x, t) && unset_bit(set_bit(x, t), t)
        == unset_bit(x, t) && unset_bit(unset_bit(x, t), t) == unset_bit(x, t)) by (bit_vector)
        requires
            t < 64,
    ;
}

/// Facts about exchanging and forcing bits.
pub proof fn lemma_swap_put(x: u64, a: u64, b: u64)
    requires
        a < 64,
        b < 64,
        a != b,
    ensures
        swap_bits(swap_bits(x, a, b), a, b) == x,
        put_bit(put_bit(x, a, bit(x, b)), b, bit(x, a)) == swap_bits(x, a, b),
        put_bit(put_bit(x, a, bit(x, a)), b, bit(x, b)) == x,
        bit(swap_bits(x, a, b), a) == bit(x, b),
        bit(swap_bits(x, a, b), b) == bit(x, a),
{
    assert(swap_bits(swap_bits(x, a, b), a, b) == x) by (bit_vector)
        requires
            a < 64,
            b < 64,
            a != b,
    ;
    assert(put_bit(put_bit(x, a, bit(x, b)), b, bit(x, a)) == swap_bits(x, a, b)) by (bit_vector)
        requires
            a < 64,
            b < 64,
            a != b,
    ;
    assert(put_bit(put_bit(x, a, bit(x, a)), b, bit(x, b)) == x) by (bit_vector)
        requires
            a < 64,
            b < 64,
    ;
    assert(bit(swap_bits(x, a, b), a) == bit(x, b) && bit(swap_bits(x, a, b), b) == bit(x, a))
        by (bit_vector)
        requires
            a < 64,
            b < 64,
            a != b,
    ;
}

/// Bits of the labels with at most two bits set.
pub proof fn lemma_small_labels(a: u64, b: u64, r: u64)
    requires
        a < 64,
        b < 64,
        r < 64,
    ensures
        !bit(0, r),
        bit(set_bit(0, a), r) == (r == a),
        bit(set_bit(set_bit(0, a), b), r) == (r == a || r == b),
        flip_bit(0, a) != 0,
        set_bit(0, a) == flip_bit(0, a),
{
    assert(!bit(0, r)) by (bit_vector)
        requires
            r < 64,
    ;
    assert(bit(set_bit(0, a), r) == (r == a)) by (bit_vector)
        requires
            a < 64,
            r < 64,
    ;
    assert(bit(set_bit(set_bit(0, a), b), r) == (r == a || r == b)) by (bit_vector)
        requires
            a < 64,
            b < 64,
            r < 64,
    ;
    assert(flip_bit(0, a) != 0 && set_bit(0, a) == flip_bit(0, a)) by (bit_vector)
        requires
            a < 64,
    ;
}

/// A basis label of at most 64 qubits, bit `q` standing for qubit `q`.
#[derive(Clone, Copy, Debug, PartialEq, Eq, Structural, Hash)]
pub struct BasisIdx64 {
    pub bits: u64,
}

impl BasisIdx64 {
    /// The all-zero label.
    pub fn zeros() -> (r: Self)
        ensures
            r.bits == 0,
    {
        BasisIdx64 { bits: 0 }
    }

    pub fn get(&self, q: QubitIndex) -> (r: bool)
        requires
            q < MAX_QUBITS,
        ensures
            r == bit(self.bits, q as u64),
    {
        (self.bits >> (q as u64)) & 1u64 == 1u64
    }

    pub fn set(&self, q: QubitIndex) -> (r: Self)
        requires
            q < MAX_QUBITS,
        ensures
            r.bits == set_bit(self.bits, q as u64),
    {
        BasisIdx64 { bits: self.bits | (1u64 << (q as u64)) }
    }

    pub fn unset(&self, q: QubitIndex) -> (r: Self)
        requires
            q < MAX_QUBITS,
        ensures
            r.bits == unset_bit(self.bits, q as u64),
    {
        BasisIdx64 { bits: self.bits & !(1u64 << (q as u64)) }
    }

    pub fn flip(&self, q: QubitIndex) -> (r: Self)
        requires
            q < MAX_QUBITS,
        ensures
            r.bits == flip_bit(self.bits, q as u64),
    {
        BasisIdx64 { bits: self.bits ^ (1u64 << (q as u64)) }
    }

    pub fn swap(&self, a: QubitIndex, b: QubitIndex) -> (r: Self)
        requires
            a < MAX_QUBITS,
            b < MAX_QUBITS,
        ensures
            r.bits == swap_bits(self.bits, a as u64, b as u64),
    {
        if self.get(a) == self.get(b) {
            *self
        } else {
            self.flip(a).flip(b)
        }
    }

    /// The label as an index into a table of `2^N` cells.
    pub fn as_idx(&self) -> (r: usize)
        ensures
            r == self.bits as usize,
    {
        self.bits as usize
    }

    pub fn from_idx(i: usize) -> (r: Self)
        ensures
            r.bits == i as u64,
    {
        BasisIdx64 { bits: i as u64 }
    }
}

} // verus!
