//! The pull action of a gate is the reverse view of its push action.
use vstd::prelude::*;

use crate::basis_idx::{bit, lemma_small_labels, lemma_split, lemma_swap_put, set_bit};
use crate::gate::{touches_spec, Factor, Gate, GateDefn, PullApplyOutput, PushApplyOutput, push_spec};
use crate::pull::pull_spec;

verus! {

/// The multiplier with which a push output carries its input to `y`, if it
/// reaches `y` at all.
pub open spec fn push_coef(o: PushApplyOutput, y: u64) -> Option<Factor> {
    match o {
        PushApplyOutput::Nonbranching(b, m) => if b.bits == y {
            Some(m)
        } else {
            None
        },
        PushApplyOutput::Branching((b0, m0), (b1, m1)) => if b0.bits == y {
            Some(m0)
        } else if b1.bits == y {
            Some(m1)
        } else {
            None
        },
    }
}

/// The multiplier with which a pull output reads the source `x`, if it reads
/// `x` at all.
pub open spec fn pull_coef(o: PullApplyOutput, x: u64) -> Option<Factor> {
    match o {
        PullApplyOutput::Nonbranching(b, m) => if b.bits == x {
            Some(m)
        } else {
            None
        },
        PullApplyOutput::Branching((b0, m0), (b1, m1)) => if b0.bits == x {
            Some(m0)
        } else if b1.bits == x {
            Some(m1)
        } else {
            None
        },
    }
}

/// A two-branch push output names two different labels.
pub open spec fn push_distinct(o: PushApplyOutput) -> bool {
    match o {
        PushApplyOutput::Branching((b0, _), (b1, _)) => b0 != b1,
        _ => true,
    }
}

/// A two-branch pull output names two different labels.
pub open spec fn pull_distinct(o: PullApplyOutput) -> bool {
    match o {
        PullApplyOutput::Branching((b0, _), (b1, _)) => b0 != b1,
        _ => true,
    }
}

/// Law: for every gate with a pull action whose touched qubits are distinct,
/// every input label `x` and every output label `y`, push carries `x` to `y`
/// with exactly the multiplier with which pull reads `x` for `y` (or neither
/// connects them); and no output of either lists one label twice. Summed over
/// `x`, the amplitude that push sends to `y` is thus the amplitude that pull
/// collects for `y`.
#[verifier::spinoff_prover]
#[verifier::rlimit(50)]
pub proof fn lemma_push_pull_duality(g: Gate, x: u64, y: u64)
    requires
        g.wf(),
        g.pull_action is Some,
        touches_spec(g.defn).no_duplicates(),
    ensures
        push_coef(push_spec(g.defn, x, g.zeros), y) == pull_coef(
            pull_spec(g.pull_action->Some_0, y),
            x,
        ),
        push_distinct(push_spec(g.defn, x, g.zeros)),
        pull_distinct(pull_spec(g.pull_action->Some_0, y)),
{
    match g.defn {
        GateDefn::CX { control, target } => {
            assert(touches_spec(g.defn)[0] != touches_spec(g.defn)[1]);
            lemma_split(x, y, target as u64, control as u64);
            lemma_split(y, x, target as u64, control as u64);
        },
        GateDefn::CZ { .. } | GateDefn::Phase { .. } | GateDefn::RZ { .. } => {},
        GateDefn::Hadamard(q) | GateDefn::SqrtX(q) | GateDefn::SqrtXdg(q) | GateDefn::RY {
            target: q,
            ..
        } | GateDefn::RX { target: q, .. } | GateDefn::U { target: q, .. } => {
            lemma_split(x, y, q as u64, q as u64);
            lemma_split(y, x, q as u64, q as u64);
        },
        GateDefn::PauliY(q) | GateDefn::PauliZ(q) | GateDefn::S(q) | GateDefn::Sdg(q) | GateDefn::T(
            q,
        ) | GateDefn::Tdg(q) | GateDefn::X(q) => {
            lemma_small_labels(q as u64, q as u64, q as u64);
            lemma_split(x, y, q as u64, q as u64);
            lemma_split(y, x, q as u64, q as u64);
        },
        GateDefn::CPhase { control, target, .. } => {
            assert(touches_spec(g.defn)[0] != touches_spec(g.defn)[1]);
            lemma_two_qubit_probes(control as u64, target as u64);
            lemma_swap_put(y, control as u64, target as u64);
        },
        GateDefn::Swap { target1, target2 } => {
            assert(touches_spec(g.defn)[0] != touches_spec(g.defn)[1]);
            let a = target1 as u64;
            let b = target2 as u64;
            lemma_two_qubit_probes(a, b);
            lemma_swap_put(0, a, b);
            lemma_swap_put(set_bit(0, b), a, b);
            lemma_swap_put(set_bit(0, a), a, b);
            lemma_swap_put(set_bit(set_bit(0, a), b), a, b);
            lemma_swap_put(x, a, b);
            lemma_swap_put(y, a, b);
        },
        _ => {},
    }
}

/// Bits, on two distinct qubits, of the four labels a two-qubit gate is
/// probed on.
proof fn lemma_two_qubit_probes(a: u64, b: u64)
    requires
        a < 64,
        b < 64,
        a != b,
    ensures
        !bit(0, a),
        !bit(0, b),
        !bit(set_bit(0, b), a),
        bit(set_bit(0, b), b),
        bit(set_bit(0, a), a),
        !bit(set_bit(0, a), b),
        bit(set_bit(set_bit(0, a), b), a),
        bit(set_bit(set_bit(0, a), b), b),
{
    lemma_small_labels(a, a, a);
    lemma_small_labels(a, b, b);
    lemma_small_labels(a, b, a);
    lemma_small_labels(b, a, a);
    lemma_small_labels(b, b, b);
    lemma_small_labels(a, a, b);
    lemma_small_labels(b, b, a);
}

} // verus!
