//! A dense state table: one amplitude cell for each of the `2^N` basis labels.
use vstd::prelude::*;

use crate::basis_idx::BasisIdx64;
use crate::complex_bits::{near_zero, ComplexBits};

verus! {

/// How many cells of `s` are not near zero.
pub open spec fn count_nonzero(s: Seq<ComplexBits>) -> nat
    decreases s.len(),
{
    if s.len() == 0 {
        0
    } else {
        count_nonzero(s.drop_last()) + if near_zero(s.last()) {
            0nat
        } else {
            1nat
        }
    }
}

proof fn lemma_count_nonzero_bound(s: Seq<ComplexBits>)
    ensures
        count_nonzero(s) <= s.len(),
    decreases s.len(),
{
    if s.len() > 0 {
        lemma_count_nonzero_bound(s.drop_last());
    }
}

#[derive(Debug)]
pub struct DenseStateTable {
    /// Cell `i` holds the amplitude of the label whose index is `i`.
    pub array: Vec<ComplexBits>,
}

impl DenseStateTable {
    /// A table for `num_qubits` qubits with every amplitude zero.
    pub fn new(num_qubits: usize) -> (r: Self)
        requires
            num_qubits < 64,
            (1u64 << (num_qubits as u64)) <= usize::MAX,
        ensures
            r.array@.len() == (1u64 << (num_qubits as u64)) as nat,
            forall|i: int| 0 <= i < r.array@.len() ==> r.array@[i] == (ComplexBits { re: 0, im: 0 }),
    {
        let capacity = (1u64 << (num_qubits as u64)) as usize;
        let mut array: Vec<ComplexBits> = Vec::new();
        let mut i: usize = 0;
        while i < capacity
            invariant
                i <= capacity,
                array@.len() == i,
                forall|k: int| 0 <= k < i ==> array@[k] == (ComplexBits { re: 0, im: 0 }),
            decreases capacity - i,
        {
            array.push(ComplexBits::zero());
            i = i + 1;
        }
        DenseStateTable { array }
    }

    pub fn capacity(&self) -> (r: usize)
        ensures
            r == self.array@.len(),
    {
        self.array.len()
    }

    /// How many amplitudes are not near zero.
    pub fn num_nonzeros(&self) -> (r: usize)
        ensures
            r == count_nonzero(self.array@),
    {
        let mut count: usize = 0;
        let mut i: usize = 0;
        while i < self.array.len()
            invariant
                i <= self.array@.len(),
                count == count_nonzero(self.array@.subrange(0, i as int)),
            decreases self.array.len() - i,
        {
            proof {
                assert(self.array@.subrange(0, i + 1).drop_last() =~= self.array@.subrange(0, i as int));
                lemma_count_nonzero_bound(self.array@.subrange(0, i as int));
            }
            if self.array[i].is_nonzero() {
                count = count + 1;
            }
            i = i + 1;
        }
        assert(self.array@.subrange(0, self.array@.len() as int) =~= self.array@);
        count
    }

    /// The labels whose amplitude is not near zero, in index order, with
    /// their amplitudes.
    pub fn nonzeros(&self) -> (r: Vec<(BasisIdx64, ComplexBits)>)
        ensures
            r@.len() == count_nonzero(self.array@),
            forall|k: int|
                0 <= k < r@.len() ==> {
                    let (b, c) = #[trigger] r@[k];
                    &&& b.bits < self.array@.len()
                    &&& c == self.array@[b.bits as int]
                    &&& !near_zero(c)
                },
            forall|k: int, l: int| 0 <= k < l < r@.len() ==> r@[k].0.bits < r@[l].0.bits,
            forall|i: int|
                0 <= i < self.array@.len() && !near_zero(#[trigger] self.array@[i]) ==> exists|k: int|
                    0 <= k < r@.len() && r@[k].0.bits == i,
    {
        let mut out: Vec<(BasisIdx64, ComplexBits)> = Vec::new();
        let mut i: usize = 0;
        while i < self.array.len()
            invariant
                i <= self.array@.len(),
                out@.len() == count_nonzero(self.array@.subrange(0, i as int)),
                forall|k: int|
                    0 <= k < out@.len() ==> {
                        let (b, c) = #[trigger] out@[k];
                        &&& b.bits < i
                        &&& c == self.array@[b.bits as int]
                        &&& !near_zero(c)
                    },
                forall|k: int, l: int| 0 <= k < l < out@.len() ==> out@[k].0.bits < out@[l].0.bits,
                forall|j: int|
                    0 <= j < i && !near_zero(#[trigger] self.array@[j]) ==> exists|k: int|
                        0 <= k < out@.len() && out@[k].0.bits == j,
            decreases self.array.len() - i,
        {
            proof {
                assert(self.array@.subrange(0, i + 1).drop_last() =~= self.array@.subrange(0, i as int));
                lemma_count_nonzero_bound(self.array@.subrange(0, i as int));
            }
            let c = self.array[i];
            if c.is_nonzero() {
                let ghost before = out@;
                out.push((BasisIdx64::from_idx(i), c));
                proof {
                    assert(out@[before.len() as int].0.bits == i);
                    assert forall|j: int|
                        0 <= j < i + 1 && !near_zero(#[trigger] self.array@[j]) implies exists|k: int|
                            0 <= k < out@.len() && out@[k].0.bits == j by {
                        if j < i {
                            let k = choose|k: int| 0 <= k < before.len() && before[k].0.bits == j;
                            assert(out@[k] == before[k]);
                        } else {
                            assert(out@[before.len() as int].0.bits == j);
                        }
                    }
                }
            }
            i = i + 1;
        }
        assert(self.array@.subrange(0, self.array@.len() as int) =~= self.array@);
        out
    }

    /// The amplitude cell of `bidx`, if the table has one.
    pub fn get(&self, bidx: &BasisIdx64) -> (r: Option<&ComplexBits>)
        ensures
            bidx.bits < self.array@.len() ==> r == Some(&self.array@[bidx.bits as int]),
            bidx.bits >= self.array@.len() ==> r is None,
    {
        if bidx.bits < self.array.len() as u64 {
            Some(&self.array[bidx.as_idx()])
        } else {
            None
        }
    }
}

} // verus!
