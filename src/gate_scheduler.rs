//! Choosing the kernels (batches of gates applied in one pass) of a circuit.
//!
//! A circuit is seen here only through, for each gate, the qubits it
//! touches and whether it branches. A scheduler hands out kernels until every
//! gate has been handed out; the order in which gates leave is the order in
//! which they are applied.
use vstd::prelude::*;

use crate::basis_idx::QubitIndex;
use crate::gate::GateError;
use crate::greedy_gate_schedulers::{GreedyFinishQubitGateScheduler, GreedyNonbranchingGateScheduler};
use crate::greedy_gate_schedulers::count_branching;
use crate::naive_gate_scheduler::{naive_kernel, NaiveGateScheduler};

verus! {

pub type GateIndex = usize;

/// Gate `g` of the circuit touches qubit `q`.
pub open spec fn touches(gt: Seq<Vec<QubitIndex>>, g: int, q: QubitIndex) -> bool {
    0 <= g < gt.len() && gt[g]@.contains(q)
}

/// Gate `g` occurs among the first `i` entries of `order`.
pub open spec fn in_prefix(order: Seq<GateIndex>, i: int, g: int) -> bool {
    exists|j: int| 0 <= j < i && order[j] == g
}

/// `order` lists gates of the circuit, each at most once, and each only after
/// every earlier gate of the circuit that shares a qubit with it.
pub open spec fn respects_dependencies(gt: Seq<Vec<QubitIndex>>, order: Seq<GateIndex>) -> bool {
    &&& order.no_duplicates()
    &&& forall|i: int| 0 <= i < order.len() ==> order[i] < gt.len()
    &&& forall|i: int, g: int, q: QubitIndex|
        0 <= i < order.len() && 0 <= g < order[i] && #[trigger] touches(gt, g, q) && #[trigger] touches(
            gt,
            order[i] as int,
            q,
        ) ==> in_prefix(order, i, g)
}

/// Every gate that touches some qubit occurs in `order`.
pub open spec fn covers_circuit(gt: Seq<Vec<QubitIndex>>, order: Seq<GateIndex>) -> bool {
    forall|g: int| 0 <= g < gt.len() && gt[g]@.len() > 0 ==> #[trigger] order.contains(g as GateIndex)
}

/// Every touched qubit is below `num_qubits`.
pub open spec fn touches_in_range(gt: Seq<Vec<QubitIndex>>, num_qubits: nat) -> bool {
    forall|g: int, i: int| 0 <= g < gt.len() && 0 <= i < gt[g]@.len() ==> #[trigger] gt[g]@[i] < num_qubits
}

/// The first gate at or after `g` that touches `q`, or the number of gates.
pub open spec fn next_touch_spec(gt: Seq<Vec<QubitIndex>>, q: QubitIndex, g: int) -> int
    decreases gt.len() - g,
{
    if g >= gt.len() {
        gt.len() as int
    } else if g >= 0 && gt[g]@.contains(q) {
        g
    } else {
        next_touch_spec(gt, q, g + 1)
    }
}

pub proof fn lemma_next_touch(gt: Seq<Vec<QubitIndex>>, q: QubitIndex, g: int)
    requires
        0 <= g,
    ensures
        g <= next_touch_spec(gt, q, g) <= gt.len() || (g > gt.len() && next_touch_spec(gt, q, g)
            == gt.len()),
        next_touch_spec(gt, q, g) < gt.len() ==> touches(gt, next_touch_spec(gt, q, g), q),
        forall|h: int| g <= h < next_touch_spec(gt, q, g) ==> !touches(gt, h, q),
    decreases gt.len() - g,
{
    if g < gt.len() && !gt[g]@.contains(q) {
        lemma_next_touch(gt, q, g + 1);
    }
}

/// Under a set of gates already handed out, `frontier[q]` is the first gate
/// touching `q` that was not handed out yet.
pub open spec fn frontier_matches(
    gt: Seq<Vec<QubitIndex>>,
    frontier: Seq<GateIndex>,
    order: Seq<GateIndex>,
) -> bool {
    &&& forall|q: int|
        0 <= q < frontier.len() ==> #[trigger] frontier[q] <= gt.len() && (frontier[q] < gt.len()
            ==> touches(gt, frontier[q] as int, q as QubitIndex))
    &&& forall|g: int, q: QubitIndex|
        q < frontier.len() && #[trigger] touches(gt, g, q) ==> (g < frontier[q as int]
            <==> order.contains(g as GateIndex))
}

/// The first gate at or after `gi` and below `num_gates` that touches `qi`,
/// or `num_gates`.
pub fn next_touch(
    num_gates: usize,
    gate_touches: &Vec<Vec<QubitIndex>>,
    qi: QubitIndex,
    gi: GateIndex,
) -> (r: GateIndex)
    requires
        gate_touches@.len() >= num_gates,
    ensures
        gi >= num_gates ==> r == num_gates,
        gi < num_gates ==> gi <= r <= num_gates,
        r < num_gates ==> gate_touches@[r as int]@.contains(qi),
        forall|h: int| gi <= h < r ==> !(#[trigger] gate_touches@[h]@.contains(qi)),
        gate_touches@.len() == num_gates ==> r == next_touch_spec(gate_touches@, qi, gi as int) || (
        gi >= num_gates && r == num_gates),
{
    let mut g = gi;
    while g < num_gates
        invariant
            gate_touches@.len() >= num_gates,
            gi <= g,
            forall|h: int| gi <= h < g ==> !(#[trigger] gate_touches@[h]@.contains(qi)),
            gate_touches@.len() == num_gates ==> next_touch_spec(gate_touches@, qi, g as int)
                == next_touch_spec(gate_touches@, qi, gi as int),
        decreases num_gates - g,
    {
        if contains_qubit(&gate_touches[g], qi) {
            return g;
        }
        g = g + 1;
    }
    num_gates
}

pub fn contains_qubit(v: &Vec<QubitIndex>, q: QubitIndex) -> (r: bool)
    ensures
        r == v@.contains(q),
{
    let mut i: usize = 0;
    while i < v.len()
        invariant
            i <= v.len(),
            forall|j: int| 0 <= j < i ==> v@[j] != q,
        decreases v.len() - i,
    {
        if v[i] == q {
            return true;
        }
        i = i + 1;
    }
    false
}

/// A sequence of distinct gate indices below `n` has at most `n` entries.
pub proof fn lemma_distinct_len(s: Seq<GateIndex>, n: nat)
    requires
        s.no_duplicates(),
        forall|i: int| 0 <= i < s.len() ==> s[i] < n,
    ensures
        s.len() <= n,
{
    let t = s.map_values(|g: GateIndex| g as int);
    assert(t.no_duplicates()) by {
        assert forall|i: int, j: int| 0 <= i < t.len() && 0 <= j < t.len() && i != j implies t[i]
            != t[j] by {
            assert(s[i] != s[j]);
        }
    }
    t.unique_seq_to_set();
    vstd::set_lib::lemma_int_range(0, n as int);
    assert(t.to_set().subset_of(vstd::set_lib::set_int_range(0, n as int))) by {
        assert forall|x: int| t.to_set().contains(x) implies vstd::set_lib::set_int_range(
            0,
            n as int,
        ).contains(x) by {
            let i = choose|i: int| 0 <= i < t.len() && t[i] == x;
            assert(s[i] < n);
        }
    }
    vstd::set_lib::lemma_len_subset(t.to_set(), vstd::set_lib::set_int_range(0, n as int));
}

/// `m` is the least natural number that satisfies `p`.
pub open spec fn is_least(p: spec_fn(int) -> bool, m: int) -> bool {
    0 <= m && p(m) && forall|k: int| 0 <= k < m ==> !#[trigger] p(k)
}

/// If some `g <= n` satisfies `p`, a least one does.
pub proof fn lemma_least(p: spec_fn(int) -> bool, n: int)
    requires
        0 <= n,
        p(n),
    ensures
        exists|m: int| m <= n && #[trigger] is_least(p, m),
    decreases n,
{
    if exists|k: int| 0 <= k < n && #[trigger] p(k) {
        let k = choose|k: int| 0 <= k < n && #[trigger] p(k);
        lemma_least(p, k);
    } else {
        assert(is_least(p, n));
    }
}

/// When no gate on the frontier is ready, every gate that touches a qubit has
/// been handed out.
pub proof fn lemma_stuck_means_done(
    gt: Seq<Vec<QubitIndex>>,
    frontier: Seq<GateIndex>,
    order: Seq<GateIndex>,
)
    requires
        touches_in_range(gt, frontier.len()),
        frontier_matches(gt, frontier, order),
        forall|q: int|
            0 <= q < frontier.len() && #[trigger] frontier[q] < gt.len() ==> exists|i: int|
                0 <= i < gt[frontier[q] as int]@.len() && frontier[gt[frontier[q] as int]@[i] as int]
                    != frontier[q],
    ensures
        covers_circuit(gt, order),
{
    assert forall|g: int| 0 <= g < gt.len() && gt[g]@.len() > 0 implies #[trigger] order.contains(
        g as GateIndex,
    ) by {
        if !order.contains(g as GateIndex) {
            let p = |h: int| 0 <= h < gt.len() && gt[h]@.len() > 0 && !order.contains(h as GateIndex);
            lemma_least(p, g);
            let m = choose|m: int| m <= g && #[trigger] is_least(p, m);
            // every qubit of `m` has `m` as its frontier gate
            assert forall|i: int| 0 <= i < gt[m]@.len() implies frontier[gt[m]@[i] as int] == m by {
                let q = gt[m]@[i];
                assert(q < frontier.len());
                assert(touches(gt, m, q));
                let f = frontier[q as int];
                assert(!(m < f));
                if f < m {
                    assert(touches(gt, f as int, q));
                    assert(!(f < frontier[q as int]));
                    assert(!order.contains(f as GateIndex));
                    assert(gt[f as int]@.contains(q));
                    assert(p(f as int));
                }
            }
            let q0 = gt[m]@[0];
            assert(q0 < frontier.len());
            assert(frontier[q0 as int] == m);
            let i = choose|i: int|
                0 <= i < gt[m]@.len() && frontier[gt[m]@[i] as int] != frontier[q0 as int];
            assert(false);
        }
    }
}

/// Law: a sequence of gates that respects the dependencies of a circuit in
/// which every gate touches a qubit, and that covers the circuit, is a
/// permutation of its gates in which two gates sharing a qubit keep their
/// circuit order.
pub proof fn lemma_schedule_keeps_circuit_order(gt: Seq<Vec<QubitIndex>>, order: Seq<GateIndex>)
    requires
        gt.len() <= usize::MAX,
        forall|g: int| 0 <= g < gt.len() ==> #[trigger] gt[g]@.len() > 0,
        respects_dependencies(gt, order),
        covers_circuit(gt, order),
    ensures
        order.no_duplicates(),
        forall|i: int| 0 <= i < order.len() ==> order[i] < gt.len(),
        forall|g: GateIndex| g < gt.len() ==> order.contains(g),
        order.len() == gt.len(),
        forall|i: int, j: int, q: QubitIndex|
            0 <= i < j < order.len() && #[trigger] touches(gt, order[i] as int, q) && #[trigger] touches(
                gt,
                order[j] as int,
                q,
            ) ==> order[i] < order[j],
{
    assert forall|g: GateIndex| g < gt.len() implies order.contains(g) by {
        let gi = g as int;
        assert(gt[gi]@.len() > 0);
        assert(order.contains(gi as GateIndex));
    }
    lemma_distinct_len(order, gt.len());
    // conversely every gate index occurs, so there are at least as many entries
    lemma_covering_len(order, gt.len());
    assert forall|i: int, j: int, q: QubitIndex|
        0 <= i < j < order.len() && #[trigger] touches(gt, order[i] as int, q) && #[trigger] touches(
            gt,
            order[j] as int,
            q,
        ) implies order[i] < order[j] by {
        if order[j] < order[i] {
            assert(in_prefix(order, i, order[j] as int));
            let k = choose|k: int| 0 <= k < i && order[k] == order[j];
            assert(order[k] == order[j] && k != j);
        } else {
            assert(order[i] != order[j]);
        }
    }
}

/// A sequence holding every index below `n` has at least `n` entries.
proof fn lemma_covering_len(s: Seq<GateIndex>, n: nat)
    requires
        n <= usize::MAX,
        forall|g: GateIndex| g < n ==> s.contains(g),
    ensures
        s.len() >= n,
{
    let t = s.map_values(|g: GateIndex| g as int);
    vstd::set_lib::lemma_int_range(0, n as int);
    assert(vstd::set_lib::set_int_range(0, n as int).subset_of(t.to_set())) by {
        assert forall|x: int| vstd::set_lib::set_int_range(0, n as int).contains(x) implies t.to_set().contains(
            x,
        ) by {
            let g = x as GateIndex;
            assert(s.contains(g));
            let i = choose|i: int| 0 <= i < s.len() && s[i] == g;
            assert(t[i] == x);
        }
    }
    t.lemma_cardinality_of_set();
    vstd::set_lib::lemma_len_subset(vstd::set_lib::set_int_range(0, n as int), t.to_set());
}

/// A source of kernels. Each call hands out the next kernel; an empty kernel
/// means that every gate has been handed out.
pub trait GateScheduler {
    /// The touch lists of the circuit being scheduled, one per gate.
    spec fn circuit(&self) -> Seq<Vec<QubitIndex>>;

    /// The gates handed out so far, in order.
    spec fn scheduled(&self) -> Seq<GateIndex>;

    spec fn inv(&self) -> bool;

    fn pick_next_gates(&mut self) -> (r: Vec<GateIndex>)
        requires
            old(self).inv(),
        ensures
            final(self).inv(),
            final(self).circuit() == old(self).circuit(),
            final(self).scheduled() == old(self).scheduled() + r@,
            respects_dependencies(final(self).circuit(), final(self).scheduled()),
            r@.len() == 0 ==> covers_circuit(final(self).circuit(), final(self).scheduled()),
    ;
}

#[derive(Clone, Copy, Debug, PartialEq, Eq, Structural)]
pub enum GateSchedulingPolicy {
    Naive,
    GreedyNonbranching,
    GreedyFinishQubit,
}

/// The policy a name stands for: `naive`; `greedy-nonbranching` or `gnb`;
/// `greedy-finish-qubit` or `gfq`.
pub open spec fn policy_named(s: Seq<char>) -> Option<GateSchedulingPolicy> {
    if s == "naive"@ {
        Some(GateSchedulingPolicy::Naive)
    } else if s == "greedy-nonbranching"@ || s == "gnb"@ {
        Some(GateSchedulingPolicy::GreedyNonbranching)
    } else if s == "greedy-finish-qubit"@ || s == "gfq"@ {
        Some(GateSchedulingPolicy::GreedyFinishQubit)
    } else {
        None
    }
}

/// A name that stands for no scheduling policy.
#[derive(Clone, Debug)]
pub struct UnknownPolicy {
    pub name: String,
}

impl GateSchedulingPolicy {
    pub fn parse(s: &str) -> (r: Option<GateSchedulingPolicy>)
        ensures
            r == policy_named(s@),
    {
        let given = s.to_owned();
        if given == "naive".to_owned() {
            Some(GateSchedulingPolicy::Naive)
        } else if given == "greedy-nonbranching".to_owned() || given == "gnb".to_owned() {
            Some(GateSchedulingPolicy::GreedyNonbranching)
        } else if given == "greedy-finish-qubit".to_owned() || given == "gfq".to_owned() {
            Some(GateSchedulingPolicy::GreedyFinishQubit)
        } else {
            None
        }
    }

    pub open spec fn name_spec(self) -> Seq<char> {
        match self {
            GateSchedulingPolicy::Naive => "naive"@,
            GateSchedulingPolicy::GreedyNonbranching => "greedy-nonbranching"@,
            GateSchedulingPolicy::GreedyFinishQubit => "greedy-finish-qubit"@,
        }
    }

    /// The policy's long name.
    pub fn name(&self) -> (r: &'static str)
        ensures
            r@ == self.name_spec(),
    {
        match self {
            GateSchedulingPolicy::Naive => "naive",
            GateSchedulingPolicy::GreedyNonbranching => "greedy-nonbranching",
            GateSchedulingPolicy::GreedyFinishQubit => "greedy-finish-qubit",
        }
    }
}

impl core::str::FromStr for GateSchedulingPolicy {
    type Err = UnknownPolicy;

    fn from_str(s: &str) -> Result<GateSchedulingPolicy, UnknownPolicy> {
        match GateSchedulingPolicy::parse(s) {
            Some(p) => Ok(p),
            None => Err(UnknownPolicy { name: s.to_owned() }),
        }
    }
}

/// A scheduler of any of the three policies.
pub enum AnyGateScheduler {
    Naive(NaiveGateScheduler),
    GreedyNonbranching(GreedyNonbranchingGateScheduler),
    GreedyFinishQubit(GreedyFinishQubitGateScheduler),
}

impl AnyGateScheduler {
    pub open spec fn policy(&self) -> GateSchedulingPolicy {
        match self {
            AnyGateScheduler::Naive(_) => GateSchedulingPolicy::Naive,
            AnyGateScheduler::GreedyNonbranching(_) => GateSchedulingPolicy::GreedyNonbranching,
            AnyGateScheduler::GreedyFinishQubit(_) => GateSchedulingPolicy::GreedyFinishQubit,
        }
    }
}

impl GateScheduler for AnyGateScheduler {
    open spec fn circuit(&self) -> Seq<Vec<QubitIndex>> {
        match self {
            AnyGateScheduler::Naive(s) => s.circuit(),
            AnyGateScheduler::GreedyNonbranching(s) => s.circuit(),
            AnyGateScheduler::GreedyFinishQubit(s) => s.circuit(),
        }
    }

    open spec fn scheduled(&self) -> Seq<GateIndex> {
        match self {
            AnyGateScheduler::Naive(s) => s.scheduled(),
            AnyGateScheduler::GreedyNonbranching(s) => s.scheduled(),
            AnyGateScheduler::GreedyFinishQubit(s) => s.scheduled(),
        }
    }

    open spec fn inv(&self) -> bool {
        match self {
            AnyGateScheduler::Naive(s) => s.inv(),
            AnyGateScheduler::GreedyNonbranching(s) => s.inv(),
            AnyGateScheduler::GreedyFinishQubit(s) => s.inv(),
        }
    }

    /// What the scheduler of each policy promises beyond the common contract.
    fn pick_next_gates(&mut self) -> (r: Vec<GateIndex>)
        ensures
            final(self).policy() == old(self).policy(),
            *old(self) is Naive ==> {
                let (s0, s1) = ((*old(self))->Naive_0, (*final(self))->Naive_0);
                &&& r@ == naive_kernel(s0.spec_next(), s0.spec_num_gates())
                &&& s1.spec_num_gates() == s0.spec_num_gates()
                &&& s1.spec_next() == s0.spec_next() + r@.len()
            },
            *old(self) is GreedyNonbranching ==> {
                let (s0, s1) = (
                    (*old(self))->GreedyNonbranching_0,
                    (*final(self))->GreedyNonbranching_0,
                );
                &&& s1.spec_stride() == s0.spec_stride()
                &&& s1.spec_branching() == s0.spec_branching()
                &&& count_branching(s1.spec_branching(), r@) <= s1.spec_stride()
                &&& count_branching(s1.spec_branching(), r@) < s1.spec_stride() ==> covers_circuit(
                    s1.spec_circuit(),
                    s1.spec_scheduled(),
                )
            },
    {
        match self {
            AnyGateScheduler::Naive(s) => s.pick_next_gates(),
            AnyGateScheduler::GreedyNonbranching(s) => s.pick_next_gates(),
            AnyGateScheduler::GreedyFinishQubit(s) => s.pick_next_gates(),
        }
    }
}

fn check_touches(num_qubits: usize, gate_touches: &Vec<Vec<QubitIndex>>) -> (r: bool)
    ensures
        r == touches_in_range(gate_touches@, num_qubits as nat),
{
    let mut g: usize = 0;
    while g < gate_touches.len()
        invariant
            g <= gate_touches@.len(),
            forall|h: int, i: int|
                0 <= h < g && 0 <= i < gate_touches@[h]@.len() ==> #[trigger] gate_touches@[h]@[i]
                    < num_qubits,
        decreases gate_touches.len() - g,
    {
        let touched = &gate_touches[g];
        let mut i: usize = 0;
        while i < touched.len()
            invariant
                g < gate_touches@.len(),
                touched@ == gate_touches@[g as int]@,
                i <= touched@.len(),
                forall|h: int, k: int|
                    0 <= h < g && 0 <= k < gate_touches@[h]@.len() ==> #[trigger] gate_touches@[h]@[k]
                        < num_qubits,
                forall|k: int| 0 <= k < i ==> #[trigger] touched@[k] < num_qubits,
            decreases touched.len() - i,
        {
            if touched[i] >= num_qubits {
                assert(!(gate_touches@[g as int]@[i as int] < num_qubits));
                return false;
            }
            i = i + 1;
        }
        g = g + 1;
    }
    true
}

/// A scheduler of the given policy for a circuit of `num_gates` gates on
/// `num_qubits` qubits; `gate_touches[g]` lists the qubits of gate `g` and
/// `gate_is_branching[g]` says whether it branches. Fails when a gate touches
/// a qubit outside the circuit.
pub fn create_gate_scheduler(
    gate_scheduling_policy: &GateSchedulingPolicy,
    num_gates: usize,
    num_qubits: usize,
    gate_touches: Vec<Vec<QubitIndex>>,
    gate_is_branching: Vec<bool>,
) -> (r: Result<AnyGateScheduler, GateError>)
    requires
        gate_touches@.len() == num_gates,
        gate_is_branching@.len() == num_gates,
    ensures
        match r {
            Ok(s) => {
                &&& touches_in_range(gate_touches@, num_qubits as nat)
                &&& s.inv()
                &&& s.policy() == *gate_scheduling_policy
                &&& s.circuit() == gate_touches@
                &&& s.scheduled() == Seq::<GateIndex>::empty()
                &&& s is Naive ==> s->Naive_0.spec_next() == 0 && s->Naive_0.spec_num_gates()
                    == num_gates
                &&& s is GreedyNonbranching ==> s->GreedyNonbranching_0.spec_stride() == 2
                    && s->GreedyNonbranching_0.spec_branching() == gate_is_branching@
            },
            Err(e) => e == GateError::QubitIndexOutOfRange && !touches_in_range(
                gate_touches@,
                num_qubits as nat,
            ),
        },
{
    if !check_touches(num_qubits, &gate_touches) {
        return Err(GateError::QubitIndexOutOfRange);
    }
    match gate_scheduling_policy {
        GateSchedulingPolicy::Naive => {
            Ok(AnyGateScheduler::Naive(NaiveGateScheduler::new(num_gates, Ghost(gate_touches@))))
        },
        GateSchedulingPolicy::GreedyNonbranching => {
            Ok(
                AnyGateScheduler::GreedyNonbranching(
                    GreedyNonbranchingGateScheduler::new(
                        num_gates,
                        num_qubits,
                        gate_touches,
                        gate_is_branching,
                    ),
                ),
            )
        },
        GateSchedulingPolicy::GreedyFinishQubit => {
            Ok(
                AnyGateScheduler::GreedyFinishQubit(
                    GreedyFinishQubitGateScheduler::new(num_gates, num_qubits, gate_touches),
                ),
            )
        },
    }
}

} // verus!
