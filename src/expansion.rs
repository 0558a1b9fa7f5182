//! The integer side of expanding a state by one kernel: which representation
//! to use, and how the source entries are cut into blocks of work.
use vstd::prelude::*;

use crate::gate::Gate;
use crate::gate_scheduler::GateIndex;

verus! {

/// How a kernel is applied.
#[derive(Clone, Copy, Debug, PartialEq, Eq, Structural)]
pub enum ExpandMethod {
    /// Push into a sparse table.
    Sparse,
    /// Push into a dense table.
    PushDense,
    /// Pull each cell of a dense table from the previous state.
    PullDense,
}

impl ExpandMethod {
    pub open spec fn name_spec(self) -> Seq<char> {
        match self {
            ExpandMethod::Sparse => "push sparse"@,
            ExpandMethod::PushDense => "push dense"@,
            ExpandMethod::PullDense => "pull dense"@,
        }
    }

    pub fn name(&self) -> (r: &'static str)
        ensures
            r@ == self.name_spec(),
    {
        match self {
            ExpandMethod::Sparse => "push sparse",
            ExpandMethod::PushDense => "push dense",
            ExpandMethod::PullDense => "pull dense",
        }
    }
}

/// The method for a kernel: sparse below the dense threshold; pull when at or
/// above the pull threshold and every gate of the kernel can pull; push into
/// a dense table otherwise.
pub open spec fn method_spec(below_dense: bool, at_pull: bool, all_pullable: bool) -> ExpandMethod {
    if below_dense {
        ExpandMethod::Sparse
    } else if at_pull && all_pullable {
        ExpandMethod::PullDense
    } else {
        ExpandMethod::PushDense
    }
}

/// `below_dense`: the expected density is under the dense threshold;
/// `at_pull`: it is at or above the pull threshold.
pub fn choose_method(below_dense: bool, at_pull: bool, all_pullable: bool) -> (r: ExpandMethod)
    ensures
        r == method_spec(below_dense, at_pull, all_pullable),
{
    if below_dense {
        ExpandMethod::Sparse
    } else if at_pull && all_pullable {
        ExpandMethod::PullDense
    } else {
        ExpandMethod::PushDense
    }
}

/// Whether every gate of `kernel` has a pull action.
pub fn all_pullable(gates: &Vec<Gate>, kernel: &Vec<GateIndex>) -> (r: bool)
    requires
        forall|i: int| 0 <= i < kernel@.len() ==> kernel@[i] < gates@.len(),
    ensures
        r == forall|i: int| 0 <= i < kernel@.len() ==> (#[trigger] gates@[kernel@[i] as int]).pull_action is Some,
{
    let mut i: usize = 0;
    while i < kernel.len()
        invariant
            i <= kernel@.len(),
            forall|j: int| 0 <= j < kernel@.len() ==> kernel@[j] < gates@.len(),
            forall|j: int| 0 <= j < i ==> (#[trigger] gates@[kernel@[j] as int]).pull_action is Some,
        decreases kernel.len() - i,
    {
        if !gates[kernel[i]].is_pullable() {
            return false;
        }
        i = i + 1;
    }
    true
}

/// How many source entries one block of sparse work takes: at least 100, at
/// most the configured cap, and otherwise a thousandth of the entries.
pub open spec fn block_size_spec(n: nat, cap: nat) -> nat {
    let k = if n / 1000 < cap {
        n / 1000
    } else {
        cap
    };
    if k < 100 {
        100
    } else {
        k
    }
}

/// The blocks that `n` source entries fall into.
#[derive(Clone, Copy, Debug, PartialEq, Eq, Structural)]
pub struct BlockLayout {
    pub num_entries: usize,
    pub block_size: usize,
    pub num_blocks: usize,
}

impl BlockLayout {
    pub open spec fn wf(self) -> bool {
        &&& self.block_size > 0
        &&& self.num_blocks * self.block_size >= self.num_entries
        &&& (self.num_blocks == 0 || (self.num_blocks - 1) * self.block_size < self.num_entries)
    }

    pub fn new(num_entries: usize, block_size_cap: usize) -> (r: BlockLayout)
        ensures
            r.wf(),
            r.num_entries == num_entries,
            r.block_size == block_size_spec(num_entries as nat, block_size_cap as nat),
    {
        let k = if num_entries / 1000 < block_size_cap {
            num_entries / 1000
        } else {
            block_size_cap
        };
        let block_size = if k < 100 {
            100
        } else {
            k
        };
        assert(num_entries / block_size < usize::MAX) by (nonlinear_arith)
            requires
                block_size >= 100,
                num_entries <= usize::MAX,
        ;
        let num_blocks = num_entries / block_size + if num_entries % block_size == 0 {
            0
        } else {
            1
        };
        proof {
            let (n, s) = (num_entries as int, block_size as int);
            assert(n == (n / s) * s + n % s) by (nonlinear_arith)
                requires
                    s > 0,
            ;
            assert(num_blocks * s >= n) by (nonlinear_arith)
                requires
                    s > 0,
                    n == (n / s) * s + n % s,
                    0 <= n % s < s,
                    num_blocks == n / s + if n % s == 0 {
                        0int
                    } else {
                        1int
                    },
            ;
            assert(num_blocks == 0 || (num_blocks - 1) * s < n) by (nonlinear_arith)
                requires
                    s > 0,
                    n == (n / s) * s + n % s,
                    0 <= n % s < s,
                    num_blocks == n / s + if n % s == 0 {
                        0int
                    } else {
                        1int
                    },
            ;
        }
        BlockLayout { num_entries, block_size, num_blocks }
    }

    /// The first entry of block `b`.
    pub fn start(&self, b: usize) -> (r: usize)
        requires
            self.wf(),
            b < self.num_blocks,
        ensures
            r == b * self.block_size,
            r < self.num_entries,
    {
        proof {
            assert(b * self.block_size <= (self.num_blocks - 1) * self.block_size) by (nonlinear_arith)
                requires
                    b <= self.num_blocks - 1,
                    self.block_size > 0,
            ;
        }
        b * self.block_size
    }

    /// One past the last entry of block `b`.
    pub fn stop(&self, b: usize) -> (r: usize)
        requires
            self.wf(),
            b < self.num_blocks,
        ensures
            r == if (b + 1) * self.block_size < self.num_entries {
                (b + 1) * self.block_size
            } else {
                self.num_entries as int
            },
    {
        let s = self.start(b);
        assert((b + 1) * self.block_size == s + self.block_size) by (nonlinear_arith)
            requires
                s == b * self.block_size,
        ;
        if self.num_entries - s > self.block_size {
            s + self.block_size
        } else {
            self.num_entries
        }
    }
}

} // verus!
