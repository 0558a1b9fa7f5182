//! Schedulers that walk a frontier: for each qubit, the first gate touching
//! it that has not been handed out. A gate is ready when it is first in line
//! on every qubit it touches.
//!
//! The greedy nonbranching scheduler builds a kernel from a maximal run of
//! ready nonbranching gates, then one ready branching gate, repeated until a
//! budget of branching gates is spent. The finish-qubit scheduler hands out
//! one ready gate at a time, the one closest to retiring one of its qubits.
//! The DAG scheduler keeps each gate's predecessors and picks among the
//! ready gates by a heuristic.
use vstd::prelude::*;

use crate::basis_idx::QubitIndex;
use crate::gate_scheduler::{
    contains_qubit, covers_circuit, frontier_matches, in_prefix, lemma_distinct_len,
    lemma_next_touch, lemma_stuck_means_done, next_touch, next_touch_spec, respects_dependencies,
    touches, touches_in_range, GateIndex, GateScheduler,
};

verus! {

/// Gate `g` is first in line on every qubit it touches.
pub open spec fn ready_in(gt: Seq<Vec<QubitIndex>>, frontier: Seq<GateIndex>, g: int) -> bool {
    &&& 0 <= g < gt.len()
    &&& forall|i: int| 0 <= i < gt[g]@.len() ==> frontier[#[trigger] gt[g]@[i] as int] == g
}

/// Handing out a ready gate `gi` and moving each of its qubits on to the
/// next gate that touches it keeps the frontier and the order consistent.
proof fn lemma_visit(
    gt: Seq<Vec<QubitIndex>>,
    f: Seq<GateIndex>,
    f2: Seq<GateIndex>,
    hist: Seq<GateIndex>,
    gi: int,
)
    requires
        gt.len() <= usize::MAX,
        f.len() <= usize::MAX,
        f2.len() == f.len(),
        touches_in_range(gt, f.len()),
        frontier_matches(gt, f, hist),
        respects_dependencies(gt, hist),
        ready_in(gt, f, gi),
        gt[gi]@.len() > 0,
        forall|q: int|
            0 <= q < f.len() ==> #[trigger] f2[q] == (if gt[gi]@.contains(q as QubitIndex) {
                next_touch_spec(gt, q as QubitIndex, gi + 1) as GateIndex
            } else {
                f[q]
            }),
    ensures
        frontier_matches(gt, f2, hist.push(gi as GateIndex)),
        respects_dependencies(gt, hist.push(gi as GateIndex)),
        forall|q: int| 0 <= q < f.len() ==> f[q] <= #[trigger] f2[q],
        forall|i: int| 0 <= i < gt[gi]@.len() ==> f2[#[trigger] gt[gi]@[i] as int] > gi,
{
    let n = f.len();
    let h2 = hist.push(gi as GateIndex);
    let q0 = gt[gi]@[0];
    assert(q0 < n);
    assert(touches(gt, gi, q0));
    assert(f[q0 as int] == gi);
    assert(!hist.contains(gi as GateIndex));
    assert forall|q: int| 0 <= q < n implies #[trigger] f2[q] <= gt.len() && (f2[q] < gt.len()
        ==> touches(gt, f2[q] as int, q as QubitIndex)) && f[q] <= f2[q] && (gt[gi]@.contains(
        q as QubitIndex,
    ) ==> f2[q] > gi) by {
        let qq = q as QubitIndex;
        if gt[gi]@.contains(qq) {
            lemma_next_touch(gt, qq, gi + 1);
            let nt = next_touch_spec(gt, qq, gi + 1);
            assert(gi + 1 <= nt <= gt.len());
            assert(f2[q] == nt as GateIndex);
            assert(f2[q] as int == nt);
            let i = choose|i: int| 0 <= i < gt[gi]@.len() && gt[gi]@[i] == qq;
            assert(f[gt[gi]@[i] as int] == gi);
            assert(f[q] == gi);
        } else {
            assert(f2[q] == f[q]);
            assert(f[q] <= gt.len());
            assert(f[q] < gt.len() ==> touches(gt, f[q] as int, qq));
        }
    }
    assert forall|i: int| 0 <= i < gt[gi]@.len() implies f2[#[trigger] gt[gi]@[i] as int] > gi by {
        let q = gt[gi]@[i];
        assert(q < n);
        assert(gt[gi]@.contains(q));
        assert(f2[q as int] > gi);
    }
    assert forall|g: int, q: QubitIndex| q < f2.len() && #[trigger] touches(gt, g, q) implies (g
        < f2[q as int] <==> h2.contains(g as GateIndex)) by {
        assert(h2.contains(g as GateIndex) <==> (hist.contains(g as GateIndex) || g == gi)) by {
            if h2.contains(g as GateIndex) {
                let j = choose|j: int| 0 <= j < h2.len() && h2[j] == g as GateIndex;
                if j < hist.len() {
                    assert(hist[j] == g as GateIndex);
                }
            }
            if hist.contains(g as GateIndex) {
                let j = choose|j: int| 0 <= j < hist.len() && hist[j] == g as GateIndex;
                assert(h2[j] == g as GateIndex);
            }
            if g == gi {
                assert(h2[hist.len() as int] == g as GateIndex);
            }
        }
        assert(f2[q as int] <= gt.len());
        if gt[gi]@.contains(q) {
            lemma_next_touch(gt, q, gi + 1);
            let i = choose|i: int| 0 <= i < gt[gi]@.len() && gt[gi]@[i] == q;
            assert(f[gt[gi]@[i] as int] == gi);
            assert(f[q as int] == gi);
            if g > gi && g < f2[q as int] {
                assert(!touches(gt, g, q));
            }
        } else {
            assert(g != gi);
        }
    }
    assert forall|i: int, g: int, q: QubitIndex|
        0 <= i < h2.len() && 0 <= g < h2[i] && #[trigger] touches(gt, g, q) && #[trigger] touches(
            gt,
            h2[i] as int,
            q,
        ) implies in_prefix(h2, i, g) by {
        if i < hist.len() {
            assert(h2[i] == hist[i]);
            assert(in_prefix(hist, i, g));
            let j = choose|j: int| 0 <= j < i && hist[j] == g;
            assert(h2[j] == g);
        } else {
            let k = choose|k: int| 0 <= k < gt[gi]@.len() && gt[gi]@[k] == q;
            assert(q < n);
            assert(f[gt[gi]@[k] as int] == gi);
            assert(hist.contains(g as GateIndex));
            let j = choose|j: int| 0 <= j < hist.len() && hist[j] == g as GateIndex;
            assert(h2[j] == g);
        }
    }
    assert(h2.no_duplicates()) by {
        assert forall|a: int, b: int| 0 <= a < h2.len() && 0 <= b < h2.len() && a != b implies h2[a]
            != h2[b] by {
            if a < hist.len() && b < hist.len() {
            } else if a < hist.len() {
                assert(hist.contains(hist[a]));
            } else {
                assert(hist.contains(hist[b]));
            }
        }
    }
}

/// How many entries of `s` are branching gates.
pub open spec fn count_branching(br: Seq<bool>, s: Seq<GateIndex>) -> nat
    decreases s.len(),
{
    if s.len() == 0 {
        0
    } else {
        count_branching(br, s.drop_last()) + if br[s.last() as int] {
            1nat
        } else {
            0nat
        }
    }
}

proof fn lemma_count_branching_append(br: Seq<bool>, s: Seq<GateIndex>, t: Seq<GateIndex>)
    ensures
        count_branching(br, s + t) == count_branching(br, s) + count_branching(br, t),
    decreases t.len(),
{
    if t.len() == 0 {
        assert(s + t =~= s);
    } else {
        assert((s + t).drop_last() =~= s + t.drop_last());
        lemma_count_branching_append(br, s, t.drop_last());
    }
}

proof fn lemma_count_branching_none(br: Seq<bool>, s: Seq<GateIndex>)
    requires
        forall|i: int| 0 <= i < s.len() ==> !br[#[trigger] s[i] as int],
    ensures
        count_branching(br, s) == 0,
    decreases s.len(),
{
    if s.len() > 0 {
        lemma_count_branching_none(br, s.drop_last());
    }
}

pub struct GreedyNonbranchingGateScheduler {
    frontier: Vec<GateIndex>,
    num_gates: usize,
    num_qubits: usize,
    gate_touches: Vec<Vec<QubitIndex>>,
    gate_is_branching: Vec<bool>,
    max_branching_stride: usize,
    history: Ghost<Seq<GateIndex>>,
}

impl GreedyNonbranchingGateScheduler {
    pub closed spec fn wf(&self) -> bool {
        &&& self.gate_touches@.len() == self.num_gates
        &&& self.gate_is_branching@.len() == self.num_gates
        &&& self.frontier@.len() == self.num_qubits
        &&& touches_in_range(self.gate_touches@, self.num_qubits as nat)
        &&& frontier_matches(self.gate_touches@, self.frontier@, self.history@)
        &&& respects_dependencies(self.gate_touches@, self.history@)
        &&& self.max_branching_stride > 0
    }

    pub closed spec fn spec_circuit(&self) -> Seq<Vec<QubitIndex>> {
        self.gate_touches@
    }

    pub closed spec fn spec_scheduled(&self) -> Seq<GateIndex> {
        self.history@
    }

    /// Up to how many branching gates one kernel takes.
    pub closed spec fn spec_stride(&self) -> nat {
        self.max_branching_stride as nat
    }

    pub closed spec fn spec_branching(&self) -> Seq<bool> {
        self.gate_is_branching@
    }

    pub closed spec fn spec_num_qubits(&self) -> nat {
        self.num_qubits as nat
    }

    /// For each qubit, the first gate touching it that was not handed out,
    /// or the number of gates.
    pub closed spec fn spec_frontier(&self) -> Seq<GateIndex> {
        self.frontier@
    }

    closed spec fn ready(&self, g: int) -> bool {
        ready_in(self.gate_touches@, self.frontier@, g)
    }

    /// On qubit `q` the first gate not handed out is absent, branching or
    /// waiting for another qubit.
    closed spec fn blocked_nonbranching(&self, q: int) -> bool {
        let g = self.frontier@[q];
        g >= self.num_gates || self.gate_is_branching@[g as int] || !self.ready(g as int)
    }

    /// On qubit `q` the first gate not handed out is absent, nonbranching or
    /// waiting for another qubit.
    closed spec fn blocked_branching(&self, q: int) -> bool {
        let g = self.frontier@[q];
        g >= self.num_gates || !self.gate_is_branching@[g as int] || !self.ready(g as int)
    }

    /// On qubit `q` the first gate not handed out is absent or waiting for
    /// another qubit.
    closed spec fn blocked(&self, q: int) -> bool {
        let g = self.frontier@[q];
        g >= self.num_gates || !self.ready(g as int)
    }

    /// `gate_touches[g]` lists the qubits of gate `g`, each below
    /// `num_qubits`; `gate_is_branching[g]` says whether it branches.
    pub fn new(
        num_gates: usize,
        num_qubits: usize,
        gate_touches: Vec<Vec<QubitIndex>>,
        gate_is_branching: Vec<bool>,
    ) -> (r: Self)
        requires
            gate_touches@.len() == num_gates,
            gate_is_branching@.len() == num_gates,
            touches_in_range(gate_touches@, num_qubits as nat),
        ensures
            r.wf(),
            r.spec_circuit() == gate_touches@,
            r.spec_branching() == gate_is_branching@,
            r.spec_scheduled() == Seq::<GateIndex>::empty(),
            r.inv(),
            r.circuit() == gate_touches@,
            r.scheduled() == Seq::<GateIndex>::empty(),
            r.spec_stride() == 2,
            r.spec_num_qubits() == num_qubits,
            r.spec_frontier().len() == num_qubits,
            forall|q: int|
                0 <= q < num_qubits ==> #[trigger] r.spec_frontier()[q] == next_touch_spec(
                    gate_touches@,
                    q as QubitIndex,
                    0,
                ),
    {
        let mut frontier: Vec<GateIndex> = Vec::new();
        let mut qi: usize = 0;
        while qi < num_qubits
            invariant
                qi <= num_qubits,
                gate_touches@.len() == num_gates,
                frontier@.len() == qi,
                forall|q: int|
                    0 <= q < qi ==> #[trigger] frontier@[q] == next_touch_spec(
                        gate_touches@,
                        q as QubitIndex,
                        0,
                    ),
            decreases num_qubits - qi,
        {
            let f = next_touch(num_gates, &gate_touches, qi, 0);
            frontier.push(f);
            qi = qi + 1;
        }
        let ghost empty = Seq::<GateIndex>::empty();
        assert forall|q: int| 0 <= q < frontier@.len() implies #[trigger] frontier@[q]
            <= gate_touches@.len() && (frontier@[q] < gate_touches@.len() ==> touches(
            gate_touches@,
            frontier@[q] as int,
            q as QubitIndex,
        )) by {
            lemma_next_touch(gate_touches@, q as QubitIndex, 0);
        }
        assert forall|g: int, q: QubitIndex| q < frontier@.len() && #[trigger] touches(
            gate_touches@,
            g,
            q,
        ) implies (g < frontier@[q as int] <==> empty.contains(g as GateIndex)) by {
            lemma_next_touch(gate_touches@, q, 0);
        }
        GreedyNonbranchingGateScheduler {
            frontier,
            num_gates,
            num_qubits,
            gate_touches,
            gate_is_branching,
            max_branching_stride: 2,
            history: Ghost(empty),
        }
    }

    fn okay_to_visit(&self, gi: GateIndex) -> (r: bool)
        requires
            self.wf(),
        ensures
            r == self.ready(gi as int),
    {
        if gi >= self.num_gates {
            return false;
        }
        let touched = &self.gate_touches[gi];
        let mut i: usize = 0;
        while i < touched.len()
            invariant
                self.wf(),
                gi < self.num_gates,
                touched@ == self.gate_touches@[gi as int]@,
                i <= touched@.len(),
                forall|k: int| 0 <= k < i ==> self.frontier@[#[trigger] touched@[k] as int] == gi,
            decreases touched.len() - i,
        {
            let q = touched[i];
            assert(q < self.num_qubits);
            if self.frontier[q] != gi {
                return false;
            }
            i = i + 1;
        }
        true
    }

    fn visit(&mut self, gi: GateIndex)
        requires
            old(self).wf(),
            old(self).ready(gi as int),
            old(self).gate_touches@[gi as int]@.len() > 0,
        ensures
            final(self).wf(),
            final(self).gate_touches@ == old(self).gate_touches@,
            final(self).gate_is_branching@ == old(self).gate_is_branching@,
            final(self).num_gates == old(self).num_gates,
            final(self).num_qubits == old(self).num_qubits,
            final(self).max_branching_stride == old(self).max_branching_stride,
            final(self).history@ == old(self).history@.push(gi),
            forall|q: int|
                0 <= q < old(self).frontier@.len() ==> old(self).frontier@[q]
                    <= #[trigger] final(self).frontier@[q],
            forall|i: int|
                0 <= i < old(self).gate_touches@[gi as int]@.len() ==> final(self).frontier@[
                    #[trigger] old(self).gate_touches@[gi as int]@[i] as int] > gi,
            final(self).frontier@.len() == old(self).frontier@.len(),
            forall|q: int|
                0 <= q < old(self).frontier@.len() ==> #[trigger] final(self).frontier@[q] == (
                if old(self).gate_touches@[gi as int]@.contains(q as QubitIndex) {
                    next_touch_spec(old(self).gate_touches@, q as QubitIndex, gi + 1) as GateIndex
                } else {
                    old(self).frontier@[q]
                }),
    {
        let ghost f0 = self.frontier@;
        let ghost gt = self.gate_touches@;
        let n = self.gate_touches[gi].len();
        let mut k: usize = 0;
        while k < n
            invariant
                self.gate_touches@ == gt,
                self.gate_is_branching@ == old(self).gate_is_branching@,
                self.num_gates == old(self).num_gates,
                self.num_qubits == old(self).num_qubits,
                self.max_branching_stride == old(self).max_branching_stride,
                self.history@ == old(self).history@,
                gt.len() == self.num_gates,
                f0 == old(self).frontier@,
                frontier_matches(gt, f0, self.history@),
                respects_dependencies(gt, self.history@),
                ready_in(gt, f0, gi as int),
                self.frontier@.len() == f0.len(),
                f0.len() == self.num_qubits,
                touches_in_range(gt, self.num_qubits as nat),
                gi < gt.len(),
                n == gt[gi as int]@.len(),
                k <= n,
                forall|q: int|
                    0 <= q < f0.len() ==> #[trigger] self.frontier@[q] == (if gt[gi as int]@.subrange(
                        0,
                        k as int,
                    ).contains(q as QubitIndex) {
                        next_touch_spec(gt, q as QubitIndex, gi + 1) as GateIndex
                    } else {
                        f0[q]
                    }),
            decreases n - k,
        {
            let q = self.gate_touches[gi][k];
            assert(q < self.num_qubits);
            let nt = next_touch(self.num_gates, &self.gate_touches, q, gi + 1);
            self.frontier.set(q, nt);
            proof {
                let s1 = gt[gi as int]@.subrange(0, k as int);
                let s2 = gt[gi as int]@.subrange(0, k + 1);
                assert forall|x: QubitIndex| s2.contains(x) <==> (s1.contains(x) || x == q) by {
                    if s2.contains(x) {
                        let j = choose|j: int| 0 <= j < s2.len() && s2[j] == x;
                        if j < k {
                            assert(s1[j] == x);
                        }
                    }
                    if s1.contains(x) {
                        let j = choose|j: int| 0 <= j < s1.len() && s1[j] == x;
                        assert(s2[j] == x);
                    }
                    if x == q {
                        assert(s2[k as int] == x);
                    }
                }
            }
            k = k + 1;
        }
        proof {
            assert(gt[gi as int]@.subrange(0, n as int) =~= gt[gi as int]@);
            lemma_visit(gt, f0, self.frontier@, self.history@, gi as int);
        }
        self.history = Ghost(self.history@.push(gi));
    }

    fn visit_maximal_nonbranching_run(&mut self) -> (r: Vec<GateIndex>)
        requires
            old(self).wf(),
        ensures
            final(self).wf(),
            final(self).gate_touches@ == old(self).gate_touches@,
            final(self).gate_is_branching@ == old(self).gate_is_branching@,
            final(self).num_gates == old(self).num_gates,
            final(self).num_qubits == old(self).num_qubits,
            final(self).max_branching_stride == old(self).max_branching_stride,
            final(self).history@ == old(self).history@ + r@,
            forall|q: int| 0 <= q < final(self).num_qubits ==> final(self).blocked_nonbranching(q),
            forall|i: int| 0 <= i < r@.len() ==> !old(self).gate_is_branching@[#[trigger] r@[i] as int],
    {
        let mut non_branching_gates: Vec<GateIndex> = Vec::new();
        let ghost h0 = self.history@;
        loop
            invariant
                self.wf(),
                self.gate_touches@ == old(self).gate_touches@,
                self.gate_is_branching@ == old(self).gate_is_branching@,
                self.num_gates == old(self).num_gates,
                self.num_qubits == old(self).num_qubits,
                self.max_branching_stride == old(self).max_branching_stride,
                self.history@ == h0 + non_branching_gates@,
                forall|i: int|
                    0 <= i < non_branching_gates@.len() ==> !old(self).gate_is_branching@[#[trigger] non_branching_gates@[i] as int],
            ensures
                self.wf(),
                self.gate_touches@ == old(self).gate_touches@,
                self.gate_is_branching@ == old(self).gate_is_branching@,
                self.num_gates == old(self).num_gates,
                self.num_qubits == old(self).num_qubits,
                self.max_branching_stride == old(self).max_branching_stride,
                self.history@ == h0 + non_branching_gates@,
                forall|q: int| 0 <= q < self.num_qubits ==> self.blocked_nonbranching(q),
                forall|i: int|
                    0 <= i < non_branching_gates@.len() ==> !old(self).gate_is_branching@[#[trigger] non_branching_gates@[i] as int],
            decreases self.num_gates - self.history@.len(),
        {
            proof {
                lemma_distinct_len(self.history@, self.num_gates as nat);
            }
            let mut selection: Vec<GateIndex> = Vec::new();
            let ghost pass_frontier = self.frontier@;
            let ghost pass_history = self.history@;
            let nq = self.num_qubits;
            for qi in 0..nq
                invariant
                    nq == self.num_qubits,
                    self.wf(),
                    self.gate_touches@ == old(self).gate_touches@,
                    self.gate_is_branching@ == old(self).gate_is_branching@,
                    self.num_gates == old(self).num_gates,
                    self.num_qubits == old(self).num_qubits,
                    self.max_branching_stride == old(self).max_branching_stride,
                    self.history@ == pass_history + selection@,
                    selection@.len() == 0 ==> self.frontier@ == pass_frontier,
                    selection@.len() == 0 ==> forall|q: int|
                        0 <= q < qi ==> self.blocked_nonbranching(q),
                    forall|i: int|
                        0 <= i < selection@.len() ==> !old(self).gate_is_branching@[#[trigger] selection@[i] as int],
            {
                loop
                    invariant
                        self.wf(),
                        self.gate_touches@ == old(self).gate_touches@,
                        self.gate_is_branching@ == old(self).gate_is_branching@,
                        self.num_gates == old(self).num_gates,
                        self.num_qubits == old(self).num_qubits,
                        self.max_branching_stride == old(self).max_branching_stride,
                        self.history@ == pass_history + selection@,
                        qi < self.num_qubits,
                        selection@.len() == 0 ==> self.frontier@ == pass_frontier,
                        selection@.len() == 0 ==> forall|q: int|
                            0 <= q < qi ==> self.blocked_nonbranching(q),
                        forall|i: int|
                            0 <= i < selection@.len() ==> !old(self).gate_is_branching@[#[trigger] selection@[i] as int],
                    ensures
                        self.wf(),
                        self.gate_touches@ == old(self).gate_touches@,
                        self.gate_is_branching@ == old(self).gate_is_branching@,
                        self.num_gates == old(self).num_gates,
                        self.num_qubits == old(self).num_qubits,
                        self.max_branching_stride == old(self).max_branching_stride,
                        self.history@ == pass_history + selection@,
                        selection@.len() == 0 ==> self.frontier@ == pass_frontier,
                        selection@.len() == 0 ==> forall|q: int|
                            0 <= q <= qi ==> self.blocked_nonbranching(q),
                        forall|i: int|
                            0 <= i < selection@.len() ==> !old(self).gate_is_branching@[#[trigger] selection@[i] as int],
                    decreases self.num_gates - self.frontier@[qi as int],
                {
                    let next_gi = self.frontier[qi];
                    if next_gi >= self.num_gates || self.gate_is_branching[next_gi]
                        || !self.okay_to_visit(next_gi) {
                        break;
                    }
                    assert(touches(self.gate_touches@, next_gi as int, qi as QubitIndex));
                    self.visit(next_gi);
                    proof {
                        let k = choose|k: int|
                            0 <= k < old(self).gate_touches@[next_gi as int]@.len()
                                && old(self).gate_touches@[next_gi as int]@[k] == qi;
                        assert(self.frontier@[old(self).gate_touches@[next_gi as int]@[k] as int]
                            > next_gi);
                    }
                    selection.push(next_gi);
                    assert(self.history@ == pass_history + selection@);
                }
            }
            if selection.len() == 0 {
                assert(self.history@ == h0 + non_branching_gates@) by {
                    assert(pass_history + selection@ =~= pass_history);
                }
                break;
            } else {
                let ghost nb_before = non_branching_gates@;
                let ghost sel = selection@;
                non_branching_gates.append(&mut selection);
                assert(self.history@ == h0 + non_branching_gates@) by {
                    assert(non_branching_gates@ =~= nb_before + sel);
                    assert(h0 + non_branching_gates@ =~= pass_history + sel);
                }
                proof {
                    lemma_distinct_len(self.history@, self.num_gates as nat);
                }
            }
        }
        non_branching_gates
    }

    fn visit_branching(&mut self) -> (r: Option<GateIndex>)
        requires
            old(self).wf(),
        ensures
            final(self).wf(),
            final(self).gate_touches@ == old(self).gate_touches@,
            final(self).gate_is_branching@ == old(self).gate_is_branching@,
            final(self).num_gates == old(self).num_gates,
            final(self).num_qubits == old(self).num_qubits,
            final(self).max_branching_stride == old(self).max_branching_stride,
            match r {
                Some(g) => final(self).history@ == old(self).history@.push(g) && old(self).gate_is_branching@[g as int],
                None => {
                    &&& final(self).history@ == old(self).history@
                    &&& final(self).frontier@ == old(self).frontier@
                    &&& forall|q: int|
                        0 <= q < old(self).num_qubits ==> #[trigger] old(self).blocked_branching(q)
                },
            },
    {
        let nq = self.num_qubits;
        for qi in 0..nq
            invariant
                nq == self.num_qubits,
                *self == *old(self),
                self.wf(),
                forall|q: int| 0 <= q < qi ==> #[trigger] self.blocked_branching(q),
        {
            let gi = self.frontier[qi];
            if gi < self.num_gates && self.gate_is_branching[gi] && self.okay_to_visit(gi) {
                assert(touches(self.gate_touches@, gi as int, qi as QubitIndex));
                self.visit(gi);
                return Some(gi);
            }
        }
        None
    }
}

impl GateScheduler for GreedyNonbranchingGateScheduler {
    closed spec fn circuit(&self) -> Seq<Vec<QubitIndex>> {
        self.gate_touches@
    }

    closed spec fn scheduled(&self) -> Seq<GateIndex> {
        self.history@
    }

    closed spec fn inv(&self) -> bool {
        self.wf()
    }

    /// Of the gates handed out, at most two branch.
    /// Of the gates handed out, at most two branch; fewer than two only when
    /// every gate has been handed out.
    fn pick_next_gates(&mut self) -> (r: Vec<GateIndex>)
        ensures
            final(self).spec_stride() == old(self).spec_stride(),
            final(self).spec_branching() == old(self).spec_branching(),
            count_branching(final(self).spec_branching(), r@) <= final(self).spec_stride(),
            count_branching(final(self).spec_branching(), r@) < final(self).spec_stride()
                ==> covers_circuit(final(self).spec_circuit(), final(self).spec_scheduled()),
    {
        let mut num_branching_so_far: usize = 0;
        let mut next_gates: Vec<GateIndex> = Vec::new();
        let ghost h0 = self.history@;
        while num_branching_so_far < self.max_branching_stride
            invariant
                self.wf(),
                self.gate_touches@ == old(self).gate_touches@,
                self.gate_is_branching@ == old(self).gate_is_branching@,
                self.num_gates == old(self).num_gates,
                self.num_qubits == old(self).num_qubits,
                self.max_branching_stride == old(self).max_branching_stride,
                self.history@ == h0 + next_gates@,
                num_branching_so_far <= self.max_branching_stride,
                num_branching_so_far > 0 ==> next_gates@.len() > 0,
                count_branching(self.gate_is_branching@, next_gates@) == num_branching_so_far,
            ensures
                self.wf(),
                self.gate_touches@ == old(self).gate_touches@,
                self.gate_is_branching@ == old(self).gate_is_branching@,
                self.num_gates == old(self).num_gates,
                self.num_qubits == old(self).num_qubits,
                self.max_branching_stride == old(self).max_branching_stride,
                self.history@ == h0 + next_gates@,
                count_branching(self.gate_is_branching@, next_gates@) <= self.max_branching_stride,
                count_branching(self.gate_is_branching@, next_gates@) < self.max_branching_stride
                    ==> forall|q: int| 0 <= q < self.num_qubits ==> #[trigger] self.blocked(q),
            decreases self.max_branching_stride - num_branching_so_far,
        {
            let mut run = self.visit_maximal_nonbranching_run();
            let ghost before = next_gates@;
            let ghost run_v = run@;
            next_gates.append(&mut run);
            assert(self.history@ == h0 + next_gates@) by {
                assert(next_gates@ =~= before + run_v);
                assert(h0 + before + run_v =~= h0 + (before + run_v));
            }
            proof {
                lemma_count_branching_none(self.gate_is_branching@, run_v);
                lemma_count_branching_append(self.gate_is_branching@, before, run_v);
            }
            let ghost mid = *self;
            match self.visit_branching() {
                Some(next_gate) => {
                    num_branching_so_far = num_branching_so_far + 1;
                    let ghost before_push = next_gates@;
                    next_gates.push(next_gate);
                    assert(next_gates@.drop_last() =~= before_push);
                    assert(self.history@ == h0 + next_gates@);
                },
                None => {
                    proof {
                        assert forall|q: int| 0 <= q < self.num_qubits implies #[trigger] self.blocked(q) by {
                            assert(mid.blocked_nonbranching(q));
                            assert(mid.blocked_branching(q));
                        }
                    }
                    break;
                },
            }
        }
        proof {
            if count_branching(self.gate_is_branching@, next_gates@) < self.max_branching_stride {
                let gt = self.gate_touches@;
                let f = self.frontier@;
                assert forall|q: int| 0 <= q < f.len() && #[trigger] f[q] < gt.len() implies exists|i: int|
                    0 <= i < gt[f[q] as int]@.len() && f[gt[f[q] as int]@[i] as int] != f[q] by {
                    assert(self.blocked(q));
                    assert(!self.ready(f[q] as int));
                }
                lemma_stuck_means_done(gt, f, self.history@);
            }
        }
        next_gates
    }
}

/// How many gates at or after `g` touch `q`.
pub open spec fn uses_from(gt: Seq<Vec<QubitIndex>>, q: QubitIndex, g: int) -> nat
    decreases gt.len() - g,
{
    if g < 0 || g >= gt.len() {
        0
    } else {
        (if gt[g]@.contains(q) {
            1nat
        } else {
            0nat
        }) + uses_from(gt, q, g + 1)
    }
}

proof fn lemma_uses_from(gt: Seq<Vec<QubitIndex>>, q: QubitIndex, g: int)
    requires
        0 <= g,
    ensures
        uses_from(gt, q, g) == uses_from(gt, q, next_touch_spec(gt, q, g)),
        uses_from(gt, q, g) <= if g <= gt.len() {
            gt.len() - g
        } else {
            0
        },
    decreases gt.len() - g,
{
    if g < gt.len() {
        lemma_uses_from(gt, q, g + 1);
    }
}

/// The least of `rem[q]` over the qubits `qs`; `usize::MAX` when there are
/// none.
pub open spec fn min_uses(rem: Seq<usize>, qs: Seq<QubitIndex>) -> int
    decreases qs.len(),
{
    if qs.len() == 0 {
        usize::MAX as int
    } else {
        let m = min_uses(rem, qs.drop_last());
        let v = rem[qs.last() as int] as int;
        if v < m {
            v
        } else {
            m
        }
    }
}

/// Returns whether `q` occurs among the first `n` entries of `v`.
fn occurs_before(v: &Vec<QubitIndex>, n: usize, q: QubitIndex) -> (r: bool)
    requires
        n <= v@.len(),
    ensures
        r == v@.subrange(0, n as int).contains(q),
{
    let mut i: usize = 0;
    while i < n
        invariant
            n <= v@.len(),
            i <= n,
            forall|k: int| 0 <= k < i ==> v@[k] != q,
        decreases n - i,
    {
        if v[i] == q {
            assert(v@.subrange(0, n as int)[i as int] == q);
            return true;
        }
        i = i + 1;
    }
    assert forall|k: int| 0 <= k < n implies v@.subrange(0, n as int)[k] != q by {}
    false
}

pub struct GreedyFinishQubitGateScheduler {
    core: GreedyNonbranchingGateScheduler,
    /// For each qubit, how many gates not handed out yet touch it.
    remaining: Vec<usize>,
}

impl GreedyFinishQubitGateScheduler {
    pub closed spec fn wf(&self) -> bool {
        &&& self.core.wf()
        &&& self.remaining@.len() == self.core.num_qubits
        &&& forall|q: int|
            0 <= q < self.core.num_qubits ==> #[trigger] self.remaining@[q] == uses_from(
                self.core.gate_touches@,
                q as QubitIndex,
                self.core.frontier@[q] as int,
            )
    }

    pub closed spec fn spec_circuit(&self) -> Seq<Vec<QubitIndex>> {
        self.core.gate_touches@
    }

    pub closed spec fn spec_scheduled(&self) -> Seq<GateIndex> {
        self.core.history@
    }

    /// Among the qubits of gate `g`, the fewest gates still to come on one.
    pub closed spec fn score(&self, g: int) -> int {
        min_uses(self.remaining@, self.core.gate_touches@[g]@)
    }

    /// Gate `g` is first in line on every qubit it touches.
    pub closed spec fn is_ready(&self, g: int) -> bool {
        self.core.ready(g)
    }

    /// `gate_touches[g]` lists the qubits of gate `g`, each below
    /// `num_qubits`.
    pub fn new(num_gates: usize, num_qubits: usize, gate_touches: Vec<Vec<QubitIndex>>) -> (r: Self)
        requires
            gate_touches@.len() == num_gates,
            touches_in_range(gate_touches@, num_qubits as nat),
        ensures
            r.wf(),
            r.spec_circuit() == gate_touches@,
            r.spec_scheduled() == Seq::<GateIndex>::empty(),
            r.inv(),
            r.circuit() == gate_touches@,
            r.scheduled() == Seq::<GateIndex>::empty(),
    {
        let mut remaining: Vec<usize> = Vec::new();
        let mut qi: usize = 0;
        while qi < num_qubits
            invariant
                qi <= num_qubits,
                gate_touches@.len() == num_gates,
                remaining@.len() == qi,
                forall|q: int|
                    0 <= q < qi ==> #[trigger] remaining@[q] == uses_from(
                        gate_touches@,
                        q as QubitIndex,
                        0,
                    ),
            decreases num_qubits - qi,
        {
            let mut count: usize = 0;
            let mut g: usize = num_gates;
            while g > 0
                invariant
                    g <= num_gates,
                    gate_touches@.len() == num_gates,
                    count == uses_from(gate_touches@, qi, g as int),
                decreases g,
            {
                proof {
                    lemma_uses_from(gate_touches@, qi, g as int);
                }
                g = g - 1;
                if contains_qubit(&gate_touches[g], qi) {
                    count = count + 1;
                }
            }
            remaining.push(count);
            qi = qi + 1;
        }
        let mut no_branching: Vec<bool> = Vec::new();
        let mut k: usize = 0;
        while k < num_gates
            invariant
                k <= num_gates,
                no_branching@.len() == k,
            decreases num_gates - k,
        {
            no_branching.push(false);
            k = k + 1;
        }
        let core = GreedyNonbranchingGateScheduler::new(
            num_gates,
            num_qubits,
            gate_touches,
            no_branching,
        );
        assert(core.num_qubits == num_qubits) by {
            assert(core.spec_num_qubits() == num_qubits);
        }
        proof {
            assert forall|q: int| 0 <= q < core.num_qubits implies #[trigger] remaining@[q]
                == uses_from(core.gate_touches@, q as QubitIndex, core.frontier@[q] as int) by {
                assert(core.frontier@[q] == next_touch_spec(core.gate_touches@, q as QubitIndex, 0))
                    by {
                    lemma_next_touch(core.gate_touches@, q as QubitIndex, 0);
                    let f = core.frontier@[q] as int;
                    let nt = next_touch_spec(core.gate_touches@, q as QubitIndex, 0);
                    if f < nt {
                        assert(touches(core.gate_touches@, f, q as QubitIndex));
                    } else if nt < f {
                        assert(touches(core.gate_touches@, nt, q as QubitIndex));
                    }
                }
                lemma_uses_from(core.gate_touches@, q as QubitIndex, 0);
            }
        }
        GreedyFinishQubitGateScheduler { core, remaining }
    }

    fn score_of(&self, gi: GateIndex) -> (r: usize)
        requires
            self.wf(),
            gi < self.core.num_gates,
        ensures
            r == self.score(gi as int),
    {
        let touched = &self.core.gate_touches[gi];
        let mut best: usize = usize::MAX;
        let mut i: usize = 0;
        while i < touched.len()
            invariant
                self.wf(),
                gi < self.core.num_gates,
                touched@ == self.core.gate_touches@[gi as int]@,
                i <= touched@.len(),
                best == min_uses(self.remaining@, touched@.subrange(0, i as int)),
            decreases touched.len() - i,
        {
            let q = touched[i];
            assert(q < self.core.num_qubits);
            let v = self.remaining[q];
            assert(touched@.subrange(0, i + 1).drop_last() =~= touched@.subrange(0, i as int));
            if v < best {
                best = v;
            }
            i = i + 1;
        }
        assert(touched@.subrange(0, touched@.len() as int) =~= touched@);
        best
    }

    /// Hands out the ready gate `gi`, keeping the use counts in step.
    fn retire(&mut self, gi: GateIndex)
        requires
            old(self).wf(),
            old(self).core.ready(gi as int),
            old(self).core.gate_touches@[gi as int]@.len() > 0,
        ensures
            final(self).wf(),
            final(self).core.gate_touches@ == old(self).core.gate_touches@,
            final(self).core.history@ == old(self).core.history@.push(gi),
    {
        let ghost gt = self.core.gate_touches@;
        let ghost f0 = self.core.frontier@;
        let n = self.core.gate_touches[gi].len();
        let mut idx: usize = 0;
        while idx < n
            invariant
                self.core == old(self).core,
                self.core.wf(),
                gt == self.core.gate_touches@,
                f0 == self.core.frontier@,
                self.core.ready(gi as int),
                gi < gt.len(),
                n == gt[gi as int]@.len(),
                idx <= n,
                self.remaining@.len() == self.core.num_qubits,
                forall|q: int|
                    0 <= q < self.core.num_qubits ==> #[trigger] self.remaining@[q] == if gt[gi as int]@.subrange(
                        0,
                        idx as int,
                    ).contains(q as QubitIndex) {
                        uses_from(gt, q as QubitIndex, gi as int) - 1
                    } else {
                        uses_from(gt, q as QubitIndex, f0[q] as int) as int
                    },
            decreases n - idx,
        {
            let q = self.core.gate_touches[gi][idx];
            assert(q < self.core.num_qubits);
            let seen = occurs_before(&self.core.gate_touches[gi], idx, q);
            proof {
                assert(f0[q as int] == gi);
                assert(gt[gi as int]@.contains(q));
                assert(uses_from(gt, q, gi as int) >= 1);
                let s1 = gt[gi as int]@.subrange(0, idx as int);
                let s2 = gt[gi as int]@.subrange(0, idx + 1);
                assert forall|x: QubitIndex| s2.contains(x) <==> (s1.contains(x) || x == q) by {
                    if s2.contains(x) {
                        let j = choose|j: int| 0 <= j < s2.len() && s2[j] == x;
                        if j < idx {
                            assert(s1[j] == x);
                        }
                    }
                    if s1.contains(x) {
                        let j = choose|j: int| 0 <= j < s1.len() && s1[j] == x;
                        assert(s2[j] == x);
                    }
                    if x == q {
                        assert(s2[idx as int] == x);
                    }
                }
            }
            if !seen {
                let v = self.remaining[q];
                self.remaining.set(q, v - 1);
            }
            idx = idx + 1;
        }
        assert(gt[gi as int]@.subrange(0, n as int) =~= gt[gi as int]@);
        self.core.visit(gi);
        proof {
            assert forall|q: int| 0 <= q < self.core.num_qubits implies #[trigger] self.remaining@[q]
                == uses_from(gt, q as QubitIndex, self.core.frontier@[q] as int) by {
                if gt[gi as int]@.contains(q as QubitIndex) {
                    lemma_uses_from(gt, q as QubitIndex, gi + 1);
                    lemma_next_touch(gt, q as QubitIndex, gi + 1);
                }
            }
        }
    }
}

impl GreedyFinishQubitGateScheduler {
    pub closed spec fn spec_num_qubits(&self) -> nat {
        self.core.num_qubits as nat
    }

    /// The first gate not handed out on qubit `q`, or the number of gates.
    pub closed spec fn frontier_gate(&self, q: int) -> int {
        self.core.frontier@[q] as int
    }

    /// Hands out one ready gate: of the gates first in line on some qubit,
    /// the ready one with the lowest score, the first qubit's gate winning a
    /// tie. `None` once every gate has been handed out.
    pub fn pick_next_gate(&mut self) -> (r: Option<GateIndex>)
        requires
            old(self).wf(),
        ensures
            final(self).wf(),
            final(self).spec_circuit() == old(self).spec_circuit(),
            respects_dependencies(final(self).spec_circuit(), final(self).spec_scheduled()),
            match r {
                None => {
                    &&& final(self).spec_scheduled() == old(self).spec_scheduled()
                    &&& covers_circuit(final(self).spec_circuit(), final(self).spec_scheduled())
                },
                Some(g) => {
                    &&& final(self).spec_scheduled() == old(self).spec_scheduled().push(g)
                    &&& old(self).is_ready(g as int)
                    &&& exists|q0: int|
                        0 <= q0 < old(self).spec_num_qubits() && old(self).frontier_gate(q0) == g
                            && forall|q: int|
                            0 <= q < q0 && #[trigger] old(self).frontier_gate(q)
                                < old(self).spec_circuit().len() && old(self).is_ready(
                                old(self).frontier_gate(q),
                            ) ==> old(self).score(g as int) < old(self).score(
                                old(self).frontier_gate(q),
                            )
                    &&& forall|q: int|
                        0 <= q < old(self).spec_num_qubits() && #[trigger] old(self).frontier_gate(q)
                            < old(self).spec_circuit().len() && old(self).is_ready(
                            old(self).frontier_gate(q),
                        ) ==> old(self).score(g as int) <= old(self).score(old(self).frontier_gate(q))
                },
            },
    {
        let mut found = false;
        let mut best_gate: GateIndex = 0;
        let mut best_score: usize = 0;
        let mut best_q: usize = 0;
        let nq = self.core.num_qubits;
        for qi in 0..nq
            invariant
                nq == self.core.num_qubits,
                *self == *old(self),
                self.wf(),
                found ==> best_gate < self.core.num_gates && self.core.ready(best_gate as int)
                    && best_score == self.score(best_gate as int)
                    && self.core.gate_touches@[best_gate as int]@.len() > 0 && best_q < nq
                    && self.core.frontier@[best_q as int] == best_gate,
                found ==> forall|q: int|
                    0 <= q < best_q && #[trigger] self.core.frontier@[q] < self.core.num_gates
                        && self.core.ready(self.core.frontier@[q] as int) ==> best_score
                        < self.score(self.core.frontier@[q] as int),
                forall|q: int|
                    0 <= q < qi && #[trigger] self.core.frontier@[q] < self.core.num_gates
                        && self.core.ready(self.core.frontier@[q] as int) ==> found && best_score
                        <= self.score(self.core.frontier@[q] as int),
        {
            let gi = self.core.frontier[qi];
            if gi < self.core.num_gates && self.core.okay_to_visit(gi) {
                assert(touches(self.core.gate_touches@, gi as int, qi as QubitIndex));
                let s = self.score_of(gi);
                if !found || s < best_score {
                    found = true;
                    best_gate = gi;
                    best_score = s;
                    best_q = qi;
                }
            }
        }
        if !found {
            proof {
                let gt = self.core.gate_touches@;
                let f = self.core.frontier@;
                assert forall|q: int| 0 <= q < f.len() && #[trigger] f[q] < gt.len() implies exists|i: int|
                    0 <= i < gt[f[q] as int]@.len() && f[gt[f[q] as int]@[i] as int] != f[q] by {
                    assert(!self.core.ready(f[q] as int));
                }
                lemma_stuck_means_done(gt, f, self.core.history@);
            }
            return None;
        }
        assert(self.frontier_gate(best_q as int) == best_gate);
        self.retire(best_gate);
        Some(best_gate)
    }
}

impl GateScheduler for GreedyFinishQubitGateScheduler {
    closed spec fn circuit(&self) -> Seq<Vec<QubitIndex>> {
        self.core.gate_touches@
    }

    closed spec fn scheduled(&self) -> Seq<GateIndex> {
        self.core.history@
    }

    closed spec fn inv(&self) -> bool {
        self.wf()
    }

    fn pick_next_gates(&mut self) -> (r: Vec<GateIndex>) {
        match self.pick_next_gate() {
            Some(g) => vec![g],
            None => Vec::new(),
        }
    }
}

/// The last gate before `g` that touches `q`, or -1.
pub open spec fn prev_touch(gt: Seq<Vec<QubitIndex>>, q: QubitIndex, g: int) -> int
    decreases g,
{
    if g <= 0 {
        -1
    } else if touches(gt, g - 1, q) {
        g - 1
    } else {
        prev_touch(gt, q, g - 1)
    }
}

/// Gate `h` is, on some qubit of gate `g`, the last gate before `g`.
pub open spec fn is_predecessor(gt: Seq<Vec<QubitIndex>>, g: int, h: int) -> bool {
    exists|i: int| 0 <= i < gt[g]@.len() && #[trigger] prev_touch(gt, gt[g]@[i], g) == h && h >= 0
}

/// How many of the first `n` gates have `g` among their predecessors.
pub open spec fn count_successors(graph: Seq<Vec<GateIndex>>, g: GateIndex, n: int) -> nat
    decreases n,
{
    if n <= 0 {
        0
    } else {
        count_successors(graph, g, n - 1) + if graph[n - 1]@.contains(g) {
            1nat
        } else {
            0nat
        }
    }
}

proof fn lemma_prev_touch_skip(gt: Seq<Vec<QubitIndex>>, q: QubitIndex, h: int, g: int)
    requires
        0 <= h <= g,
        forall|k: int| h <= k < g ==> !touches(gt, k, q),
    ensures
        prev_touch(gt, q, g) == prev_touch(gt, q, h),
    decreases g - h,
{
    if h < g {
        lemma_prev_touch_skip(gt, q, h, g - 1);
    }
}

proof fn lemma_prev_touch_range(gt: Seq<Vec<QubitIndex>>, q: QubitIndex, g: int)
    ensures
        -1 <= prev_touch(gt, q, g) < g || (g <= 0 && prev_touch(gt, q, g) == -1),
    decreases g,
{
    if g > 0 {
        lemma_prev_touch_range(gt, q, g - 1);
    }
}

/// A scheduler that sees the circuit as a graph of dependencies and picks,
/// among the ready gates, by a heuristic: greedily the first nonbranching
/// one, or (when `informed`) the one with the lowest estimated cost.
pub struct DAGScheduler {
    core: GreedyNonbranchingGateScheduler,
    informed: bool,
    /// For each gate, its predecessors.
    dependency_graph: Vec<Vec<GateIndex>>,
}

impl DAGScheduler {
    pub closed spec fn wf(&self) -> bool {
        &&& self.core.wf()
        &&& self.dependency_graph@.len() == self.core.num_gates
        &&& forall|g: int, h: GateIndex|
            0 <= g < self.core.num_gates ==> (#[trigger] self.dependency_graph@[g]@.contains(h)
                <==> is_predecessor(self.core.gate_touches@, g, h as int))
    }

    pub closed spec fn spec_circuit(&self) -> Seq<Vec<QubitIndex>> {
        self.core.gate_touches@
    }

    pub closed spec fn spec_scheduled(&self) -> Seq<GateIndex> {
        self.core.history@
    }

    /// `gate_touches[g]` lists the qubits of gate `g`, each below
    /// `num_qubits`; `gate_is_branching[g]` says whether it branches.
    pub fn new(
        num_gates: usize,
        num_qubits: usize,
        gate_touches: Vec<Vec<QubitIndex>>,
        gate_is_branching: Vec<bool>,
        informed: bool,
    ) -> (r: Self)
        requires
            gate_touches@.len() == num_gates,
            gate_is_branching@.len() == num_gates,
            touches_in_range(gate_touches@, num_qubits as nat),
        ensures
            r.wf(),
            r.spec_circuit() == gate_touches@,
            r.spec_scheduled() == Seq::<GateIndex>::empty(),
    {
        let core = GreedyNonbranchingGateScheduler::new(
            num_gates,
            num_qubits,
            gate_touches,
            gate_is_branching,
        );
        let mut sched = DAGScheduler { core, informed, dependency_graph: Vec::new() };
        sched.build_dependency_graph();
        sched
    }

    fn build_dependency_graph(&mut self)
        requires
            old(self).core.wf(),
        ensures
            final(self).wf(),
            final(self).core == old(self).core,
            final(self).informed == old(self).informed,
    {
        let mut graph: Vec<Vec<GateIndex>> = Vec::new();
        let mut g: usize = 0;
        while g < self.core.num_gates
            invariant
                self.core.wf(),
                self.core == old(self).core,
                self.informed == old(self).informed,
                g <= self.core.num_gates,
                graph@.len() == g,
                forall|k: int, h: GateIndex|
                    0 <= k < g ==> (#[trigger] graph@[k]@.contains(h) <==> is_predecessor(
                        self.core.gate_touches@,
                        k,
                        h as int,
                    )),
            decreases self.core.num_gates - g,
        {
            let preds = self.predecessors(g);
            let ghost before = graph@;
            let ghost pv = preds@;
            graph.push(preds);
            proof {
                assert forall|k: int, h: GateIndex|
                    0 <= k < g + 1 implies (#[trigger] graph@[k]@.contains(h) <==> is_predecessor(
                        self.core.gate_touches@,
                        k,
                        h as int,
                    )) by {
                    if k < g {
                        assert(graph@[k] == before[k]);
                    } else {
                        assert(graph@[k]@ == pv);
                    }
                }
            }
            g = g + 1;
        }
        self.dependency_graph = graph;
    }

    /// Whether gate `gate_index` touches `qubit_index`.
    fn touches_qubit(&self, gate_index: GateIndex, qubit_index: QubitIndex) -> (r: bool)
        requires
            self.core.wf(),
            gate_index < self.core.num_gates,
        ensures
            r == touches(self.spec_circuit(), gate_index as int, qubit_index),
    {
        contains_qubit(&self.core.gate_touches[gate_index], qubit_index)
    }

    /// For each qubit of gate `gate_index`, the last earlier gate on it;
    /// each such gate once.
    fn predecessors(&self, gate_index: GateIndex) -> (r: Vec<GateIndex>)
        requires
            self.core.wf(),
            gate_index < self.core.num_gates,
        ensures
            forall|h: GateIndex|
                #[trigger] r@.contains(h) <==> is_predecessor(
                    self.spec_circuit(),
                    gate_index as int,
                    h as int,
                ),
            r@.no_duplicates(),
    {
        let ghost gt = self.core.gate_touches@;
        let g = gate_index;
        let touched = &self.core.gate_touches[g];
        let mut preds: Vec<GateIndex> = Vec::new();
        let mut i: usize = 0;
        while i < touched.len()
            invariant
                self.core.wf(),
                gt == self.core.gate_touches@,
                g < gt.len(),
                touched@ == gt[g as int]@,
                i <= touched@.len(),
                preds@.no_duplicates(),
                forall|h: int|
                    #[trigger] preds@.contains(h as GateIndex) && 0 <= h <= usize::MAX <==> exists|k: int|
                        0 <= k < i && #[trigger] prev_touch(gt, touched@[k], g as int) == h && h >= 0,
            decreases touched.len() - i,
        {
            let q = touched[i];
            // the last gate before `g` on `q`
            let mut h: usize = g;
            let mut found = false;
            while h > 0
                invariant_except_break
                    !found,
                invariant
                    self.core.wf(),
                    gt == self.core.gate_touches@,
                    g < gt.len(),
                    h <= g,
                    prev_touch(gt, q, g as int) == prev_touch(gt, q, h as int),
                ensures
                    h <= g,
                    prev_touch(gt, q, g as int) == prev_touch(gt, q, h as int),
                    found ==> h > 0 && touches(gt, h - 1, q),
                    !found ==> h == 0,
                decreases h,
            {
                if self.touches_qubit(h - 1, q) {
                    found = true;
                    break;
                }
                h = h - 1;
            }
            proof {
                lemma_prev_touch_range(gt, q, h as int);
            }
            let ghost before = preds@;
            if found {
                let p = h - 1;
                assert(prev_touch(gt, q, g as int) == p);
                if !contains_qubit(&preds, p) {
                    preds.push(p);
                    assert(preds@[preds@.len() - 1] == p);
                    proof {
                        assert forall|a: int, b: int|
                            0 <= a < preds@.len() && 0 <= b < preds@.len() && a != b implies preds@[a]
                            != preds@[b] by {
                            if a < before.len() && b < before.len() {
                            } else if a < before.len() {
                                assert(before.contains(preds@[a]));
                            } else {
                                assert(before.contains(preds@[b]));
                            }
                        }
                    }
                }
                assert(preds@.contains(p));
            } else {
                assert(prev_touch(gt, q, g as int) == -1);
            }
            proof {
                assert forall|x: int|
                    #[trigger] preds@.contains(x as GateIndex) && 0 <= x <= usize::MAX <==> exists|k: int|
                        0 <= k < i + 1 && #[trigger] prev_touch(gt, touched@[k], g as int) == x && x
                            >= 0 by {
                    if preds@.contains(x as GateIndex) && 0 <= x <= usize::MAX {
                        if before.contains(x as GateIndex) {
                            let k = choose|k: int|
                                0 <= k < i && #[trigger] prev_touch(gt, touched@[k], g as int) == x
                                    && x >= 0;
                        } else {
                            let j = choose|j: int| 0 <= j < preds@.len() && preds@[j] == x as GateIndex;
                            if j < before.len() {
                                assert(before.contains(x as GateIndex));
                            }
                            assert(prev_touch(gt, touched@[i as int], g as int) == x);
                        }
                    }
                    if exists|k: int|
                        0 <= k < i + 1 && #[trigger] prev_touch(gt, touched@[k], g as int) == x && x
                            >= 0 {
                        let k = choose|k: int|
                            0 <= k < i + 1 && #[trigger] prev_touch(gt, touched@[k], g as int) == x
                                && x >= 0;
                        lemma_prev_touch_range(gt, touched@[k], g as int);
                        if k < i {
                            assert(before.contains(x as GateIndex));
                            let j = choose|j: int| 0 <= j < before.len() && before[j] == x as GateIndex;
                            assert(preds@[j] == x as GateIndex);
                        } else {
                            assert(found);
                            assert(preds@.contains((h - 1) as GateIndex));
                        }
                    }
                }
            }
            i = i + 1;
        }
        proof {
            assert forall|h: GateIndex| #[trigger] preds@.contains(h) <==> is_predecessor(
                gt,
                g as int,
                h as int,
            ) by {
                let hi = h as int;
                assert(preds@.contains(hi as GateIndex) == preds@.contains(h));
                if is_predecessor(gt, g as int, hi) {
                    let k = choose|k: int|
                        0 <= k < gt[g as int]@.len() && #[trigger] prev_touch(gt, gt[g as int]@[k], g as int)
                            == hi && hi >= 0;
                    assert(prev_touch(gt, touched@[k], g as int) == hi);
                }
            }
        }
        preds
    }
}

impl DAGScheduler {
    pub closed spec fn spec_branching(&self) -> Seq<bool> {
        self.core.gate_is_branching@
    }

    /// The estimated cost of taking gate `g` next.
    closed spec fn cost(&self, g: GateIndex) -> int {
        (if self.core.gate_is_branching@[g as int] {
            1int
        } else {
            0int
        }) - count_successors(self.dependency_graph@, g, self.core.num_gates as int)
            + self.dependency_graph@[g as int]@.len()
    }

    /// The gates that have `gate_index` among their predecessors, in
    /// circuit order.
    fn successor(&self, gate_index: GateIndex) -> (r: Vec<GateIndex>)
        requires
            self.wf(),
        ensures
            forall|h: GateIndex|
                #[trigger] r@.contains(h) <==> h < self.core.num_gates
                    && self.dependency_graph@[h as int]@.contains(gate_index),
            r@.len() == count_successors(self.dependency_graph@, gate_index, self.core.num_gates as int),
    {
        let mut successors: Vec<GateIndex> = Vec::new();
        let mut h: usize = 0;
        while h < self.core.num_gates
            invariant
                self.wf(),
                h <= self.core.num_gates,
                forall|x: GateIndex|
                    #[trigger] successors@.contains(x) <==> x < h
                        && self.dependency_graph@[x as int]@.contains(gate_index),
                successors@.len() == count_successors(self.dependency_graph@, gate_index, h as int),
            decreases self.core.num_gates - h,
        {
            let ghost before = successors@;
            if contains_qubit(&self.dependency_graph[h], gate_index) {
                successors.push(h);
                proof {
                    assert forall|x: GateIndex| #[trigger] successors@.contains(x) <==> x < h + 1
                        && self.dependency_graph@[x as int]@.contains(gate_index) by {
                        if successors@.contains(x) && x != h {
                            let j = choose|j: int| 0 <= j < successors@.len() && successors@[j] == x;
                            assert(before[j] == x);
                            assert(before.contains(x));
                        }
                        if x < h && self.dependency_graph@[x as int]@.contains(gate_index) {
                            assert(before.contains(x));
                            let j = choose|j: int| 0 <= j < before.len() && before[j] == x;
                            assert(successors@[j] == x);
                        }
                        if x == h {
                            assert(successors@[before.len() as int] == x);
                        }
                    }
                }
            }
            h = h + 1;
        }
        successors
    }

    /// 0 for a branching gate, 1 otherwise.
    fn greedy_heuristic(&self, g_index: GateIndex) -> (r: i32)
        requires
            self.wf(),
            g_index < self.core.num_gates,
        ensures
            r == if self.core.gate_is_branching@[g_index as int] {
                0i32
            } else {
                1i32
            },
    {
        if self.core.gate_is_branching[g_index] {
            0
        } else {
            1
        }
    }

    /// An estimated cost of taking gate `g_index` next: 1 if it branches,
    /// less one for each gate that waits on it, plus one for each gate it
    /// waits on.
    fn a_star_heuristic(&self, g_index: GateIndex) -> (r: i128)
        requires
            self.wf(),
            g_index < self.core.num_gates,
        ensures
            r == self.cost(g_index),
    {
        let branch: i128 = if self.core.gate_is_branching[g_index] {
            1
        } else {
            0
        };
        let depth = self.dependency_graph[g_index].len();
        let opportunities = self.successor(g_index).len();
        branch - opportunities as i128 + depth as i128
    }

    /// The gates that are ready now, each once, in the order of the qubits
    /// whose frontier they stand on.
    fn current_gates(&self) -> (r: Vec<GateIndex>)
        requires
            self.wf(),
        ensures
            r@.no_duplicates(),
            forall|i: int|
                0 <= i < r@.len() ==> self.core.ready(#[trigger] r@[i] as int)
                    && self.core.gate_touches@[r@[i] as int]@.len() > 0,
            forall|q: int|
                0 <= q < self.core.num_qubits && #[trigger] self.core.frontier@[q] < self.core.num_gates
                    && self.core.ready(self.core.frontier@[q] as int) ==> r@.contains(
                    self.core.frontier@[q],
                ),
    {
        let mut current: Vec<GateIndex> = Vec::new();
        let mut qi: usize = 0;
        while qi < self.core.num_qubits
            invariant
                self.wf(),
                qi <= self.core.num_qubits,
                current@.no_duplicates(),
                forall|i: int|
                    0 <= i < current@.len() ==> self.core.ready(#[trigger] current@[i] as int)
                        && self.core.gate_touches@[current@[i] as int]@.len() > 0,
                forall|q: int|
                    0 <= q < qi && #[trigger] self.core.frontier@[q] < self.core.num_gates
                        && self.core.ready(self.core.frontier@[q] as int) ==> current@.contains(
                        self.core.frontier@[q],
                    ),
            decreases self.core.num_qubits - qi,
        {
            let gi = self.core.frontier[qi];
            if gi < self.core.num_gates && self.core.okay_to_visit(gi) && !contains_qubit(&current, gi) {
                assert(touches(self.core.gate_touches@, gi as int, qi as QubitIndex));
                let ghost before = current@;
                current.push(gi);
                proof {
                    assert(current@[before.len() as int] == gi);
                    assert forall|a: int, b: int|
                        0 <= a < current@.len() && 0 <= b < current@.len() && a != b implies current@[a]
                        != current@[b] by {
                        if a < before.len() && b < before.len() {
                        } else if a < before.len() {
                            assert(before.contains(current@[a]));
                        } else {
                            assert(before.contains(current@[b]));
                        }
                    }
                    assert forall|q: int|
                        0 <= q < qi + 1 && #[trigger] self.core.frontier@[q] < self.core.num_gates
                            && self.core.ready(self.core.frontier@[q] as int) implies current@.contains(
                            self.core.frontier@[q],
                        ) by {
                        if q < qi {
                            let j = choose|j: int|
                                0 <= j < before.len() && before[j] == self.core.frontier@[q];
                            assert(current@[j] == before[j]);
                        }
                    }
                }
            }
            qi = qi + 1;
        }
        current
    }

    /// Which gate of `current` to take next: the first with the lowest
    /// estimated cost when informed, else the first nonbranching one (or the
    /// first of all).
    fn pick_index(&self, current: &Vec<GateIndex>) -> (r: usize)
        requires
            self.wf(),
            current@.len() > 0,
            forall|i: int| 0 <= i < current@.len() ==> #[trigger] current@[i] < self.core.num_gates,
        ensures
            r < current@.len(),
            self.informed ==> forall|j: int|
                0 <= j < current@.len() ==> self.cost(current@[r as int]) <= #[trigger] self.cost(
                    current@[j],
                ) && (j < r ==> self.cost(current@[j]) > self.cost(current@[r as int])),
            !self.informed ==> (forall|j: int|
                0 <= j < r ==> #[trigger] self.core.gate_is_branching@[current@[j] as int]) && (
            !self.core.gate_is_branching@[current@[r as int] as int] || (r == 0 && forall|j: int|
                0 <= j < current@.len() ==> #[trigger] self.core.gate_is_branching@[current@[j] as int])),
    {
        if self.informed {
            let mut best: usize = 0;
            let mut min_heur = self.a_star_heuristic(current[0]);
            let mut j: usize = 1;
            while j < current.len()
                invariant
                    self.wf(),
                    self.informed,
                    forall|i: int| 0 <= i < current@.len() ==> #[trigger] current@[i] < self.core.num_gates,
                    1 <= j <= current@.len(),
                    best < j,
                    min_heur == self.cost(current@[best as int]),
                    forall|i: int|
                        0 <= i < j ==> min_heur <= #[trigger] self.cost(current@[i]) && (i < best
                            ==> self.cost(current@[i]) > min_heur),
                decreases current.len() - j,
            {
                let cur_heur = self.a_star_heuristic(current[j]);
                if min_heur > cur_heur {
                    best = j;
                    min_heur = cur_heur;
                }
                j = j + 1;
            }
            best
        } else {
            let mut j: usize = 0;
            while j < current.len()
                invariant
                    self.wf(),
                    !self.informed,
                    forall|i: int| 0 <= i < current@.len() ==> #[trigger] current@[i] < self.core.num_gates,
                    j <= current@.len(),
                    forall|i: int| 0 <= i < j ==> #[trigger] self.core.gate_is_branching@[current@[i] as int],
                decreases current.len() - j,
            {
                if self.greedy_heuristic(current[j]) == 1 {
                    return j;
                }
                j = j + 1;
            }
            0
        }
    }
}

impl GateScheduler for DAGScheduler {
    closed spec fn circuit(&self) -> Seq<Vec<QubitIndex>> {
        self.core.gate_touches@
    }

    closed spec fn scheduled(&self) -> Seq<GateIndex> {
        self.core.history@
    }

    closed spec fn inv(&self) -> bool {
        self.wf()
    }

    /// Takes ready gates one by one, each chosen by the heuristic, until a
    /// second branching gate has been taken or no gate is ready.
    fn pick_next_gates(&mut self) -> (r: Vec<GateIndex>)
        ensures
            count_branching(final(self).spec_branching(), r@) <= 2,
    {
        let mut kernel: Vec<GateIndex> = Vec::new();
        let mut bf: usize = 0;
        let ghost h0 = self.core.history@;
        proof {
            lemma_distinct_len(self.core.history@, self.core.num_gates as nat);
        }
        while bf < 2
            invariant
                self.wf(),
                self.core.gate_touches@ == old(self).core.gate_touches@,
                self.core.gate_is_branching@ == old(self).core.gate_is_branching@,
                self.core.history@ == h0 + kernel@,
                self.core.history@.len() <= self.core.num_gates,
                count_branching(self.core.gate_is_branching@, kernel@) == bf,
                bf <= 2,
            ensures
                self.wf(),
                self.core.gate_touches@ == old(self).core.gate_touches@,
                self.core.gate_is_branching@ == old(self).core.gate_is_branching@,
                self.core.history@ == h0 + kernel@,
                count_branching(self.core.gate_is_branching@, kernel@) <= 2,
                kernel@.len() == 0 ==> covers_circuit(self.core.gate_touches@, self.core.history@),
            decreases self.core.num_gates - self.core.history@.len(),
        {
            let current = self.current_gates();
            if current.len() == 0 {
                proof {
                    if kernel@.len() == 0 {
                        let gt = self.core.gate_touches@;
                        let f = self.core.frontier@;
                        assert forall|q: int| 0 <= q < f.len() && #[trigger] f[q] < gt.len() implies exists|i: int|
                            0 <= i < gt[f[q] as int]@.len() && f[gt[f[q] as int]@[i] as int] != f[q] by {
                            if self.core.ready(f[q] as int) {
                                assert(current@.contains(f[q]));
                            }
                        }
                        lemma_stuck_means_done(gt, f, self.core.history@);
                    }
                }
                break;
            }
            let k = self.pick_index(&current);
            let next = current[k];
            if self.core.gate_is_branching[next] {
                bf = bf + 1;
            }
            let ghost before = kernel@;
            self.core.visit(next);
            kernel.push(next);
            proof {
                assert(kernel@.drop_last() =~= before);
                lemma_distinct_len(self.core.history@, self.core.num_gates as nat);
            }
        }
        kernel
    }
}

} // verus!
