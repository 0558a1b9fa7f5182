//! One gate per kernel, in circuit order.
use vstd::prelude::*;

use crate::basis_idx::QubitIndex;
use crate::gate_scheduler::{GateIndex, GateScheduler, respects_dependencies, covers_circuit};

verus! {

/// The kernel the naive scheduler hands out when `next` gates of `n` have
/// left: the next gate alone, or nothing at the end.
pub open spec fn naive_kernel(next: nat, n: nat) -> Seq<GateIndex> {
    if next < n {
        seq![next as GateIndex]
    } else {
        seq![]
    }
}

pub struct NaiveGateScheduler {
    next: GateIndex,
    num_gates: usize,
    gate_touches: Ghost<Seq<Vec<QubitIndex>>>,
}

impl NaiveGateScheduler {
    pub closed spec fn wf(&self) -> bool {
        &&& self.next <= self.num_gates
        &&& self.gate_touches@.len() == self.num_gates
    }

    pub closed spec fn spec_circuit(&self) -> Seq<Vec<QubitIndex>> {
        self.gate_touches@
    }

    pub closed spec fn spec_scheduled(&self) -> Seq<GateIndex> {
        Seq::new(self.next as nat, |i: int| i as GateIndex)
    }

    /// How many gates have been handed out.
    pub closed spec fn spec_next(&self) -> nat {
        self.next as nat
    }

    pub closed spec fn spec_num_gates(&self) -> nat {
        self.num_gates as nat
    }

    /// A scheduler for a circuit of `num_gates` gates whose touch lists are
    /// `gate_touches`; they do not change the order, which is the circuit's.
    pub fn new(num_gates: usize, gate_touches: Ghost<Seq<Vec<QubitIndex>>>) -> (r: Self)
        requires
            gate_touches@.len() == num_gates,
        ensures
            r.wf(),
            r.spec_circuit() == gate_touches@,
            r.spec_scheduled() == Seq::<GateIndex>::empty(),
            r.inv(),
            r.circuit() == gate_touches@,
            r.scheduled() == Seq::<GateIndex>::empty(),
            r.spec_next() == 0,
            r.spec_num_gates() == num_gates,
    {
        let r = NaiveGateScheduler { next: 0, num_gates, gate_touches };
        assert(r.spec_scheduled() =~= Seq::<GateIndex>::empty());
        r
    }
}

impl GateScheduler for NaiveGateScheduler {
    closed spec fn circuit(&self) -> Seq<Vec<QubitIndex>> {
        self.gate_touches@
    }

    closed spec fn scheduled(&self) -> Seq<GateIndex> {
        Seq::new(self.next as nat, |i: int| i as GateIndex)
    }

    closed spec fn inv(&self) -> bool {
        self.wf()
    }

    /// Hands out gate `i` alone, for `i` = 0, 1, … in turn.
    fn pick_next_gates(&mut self) -> (r: Vec<GateIndex>)
        ensures
            r@ == naive_kernel(old(self).spec_next(), old(self).spec_num_gates()),
            final(self).spec_num_gates() == old(self).spec_num_gates(),
            final(self).spec_next() == old(self).spec_next() + r@.len(),
    {
        let old_order = Ghost(self.scheduled());
        let r = if self.next < self.num_gates {
            let g = self.next;
            self.next = self.next + 1;
            let k = vec![g];
            assert(k@ =~= seq![g]);
            k
        } else {
            let k = Vec::new();
            assert(k@ =~= Seq::<GateIndex>::empty());
            k
        };
        proof {
            let order = self.scheduled();
            assert(order =~= old_order@ + r@);
            assert forall|i: int, g: int, q: QubitIndex|
                0 <= i < order.len() && 0 <= g < order[i]
                    && #[trigger] crate::gate_scheduler::touches(self.gate_touches@, g, q)
                    && #[trigger] crate::gate_scheduler::touches(
                    self.gate_touches@,
                    order[i] as int,
                    q,
                ) implies crate::gate_scheduler::in_prefix(order, i, g) by {
                assert(order[g] == g);
            }
            assert(respects_dependencies(self.gate_touches@, order));
            if r@.len() == 0 {
                assert forall|g: int|
                    0 <= g < self.gate_touches@.len() && self.gate_touches@[g]@.len()
                        > 0 implies #[trigger] order.contains(g as GateIndex) by {
                    assert(order[g] == g as GateIndex);
                }
                assert(covers_circuit(self.gate_touches@, order));
            }
        }
        r
    }
}

} // verus!
