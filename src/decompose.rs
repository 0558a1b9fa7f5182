//! Rewriting three-qubit gates into one- and two-qubit gates.
use vstd::prelude::*;

use crate::basis_idx::QubitIndex;
use crate::gate::GateDefn;

verus! {

/// The standard fifteen-gate pattern that replaces `CCX(c1, c2, t)`: the
/// target is phased between two Hadamards, and the last four gates undo the
/// relative phase that leaves on the controls.
pub open spec fn ccx_decomposition(c1: QubitIndex, c2: QubitIndex, t: QubitIndex) -> Seq<GateDefn> {
    seq![
        GateDefn::Hadamard(t),
        GateDefn::CX { control: c2, target: t },
        GateDefn::Tdg(t),
        GateDefn::CX { control: c1, target: t },
        GateDefn::T(t),
        GateDefn::CX { control: c2, target: t },
        GateDefn::Tdg(t),
        GateDefn::CX { control: c1, target: t },
        GateDefn::T(c2),
        GateDefn::T(t),
        GateDefn::Hadamard(t),
        GateDefn::CX { control: c1, target: c2 },
        GateDefn::T(c1),
        GateDefn::Tdg(c2),
        GateDefn::CX { control: c1, target: c2 },
    ]
}

/// `CSwap(c, t1, t2)` as `CX(t1, t2)`, the pattern for `CCX(c, t2, t1)`,
/// and `CX(t1, t2)` again.
pub open spec fn cswap_decomposition(c: QubitIndex, t1: QubitIndex, t2: QubitIndex) -> Seq<GateDefn> {
    seq![GateDefn::CX { control: t1, target: t2 }] + ccx_decomposition(c, t2, t1) + seq![
        GateDefn::CX { control: t1, target: t2 },
    ]
}

/// `a` and `b` describe the same gate.
pub open spec fn same_defn(a: GateDefn, b: GateDefn) -> bool {
    match (a, b) {
        (
            GateDefn::Other { name: n1, params: p1, args: a1 },
            GateDefn::Other { name: n2, params: p2, args: a2 },
        ) => n1@ == n2@ && p1@ == p2@ && a1@ == a2@,
        _ => a == b,
    }
}

/// What `decompose_gate` turns `defn` into.
pub open spec fn decomposition_spec(defn: GateDefn) -> Seq<GateDefn> {
    match defn {
        GateDefn::CCX { control1, control2, target } => ccx_decomposition(
            control1,
            control2,
            target,
        ),
        GateDefn::CSwap { control, target1, target2 } => cswap_decomposition(
            control,
            target1,
            target2,
        ),
        _ => seq![defn],
    }
}

impl GateDefn {
    /// An identical gate.
    pub fn duplicate(&self) -> (r: GateDefn)
        ensures
            same_defn(r, *self),
    {
        match self {
            GateDefn::Other { name, params, args } => {
                let mut p: Vec<crate::gate::Angle> = Vec::new();
                let mut i: usize = 0;
                while i < params.len()
                    invariant
                        i <= params.len(),
                        p@ == params@.subrange(0, i as int),
                    decreases params.len() - i,
                {
                    p.push(params[i]);
                    i = i + 1;
                }
                let mut a: Vec<QubitIndex> = Vec::new();
                let mut j: usize = 0;
                while j < args.len()
                    invariant
                        j <= args.len(),
                        p@ == params@,
                        a@ == args@.subrange(0, j as int),
                    decreases args.len() - j,
                {
                    a.push(args[j]);
                    j = j + 1;
                }
                assert(p@ =~= params@);
                assert(a@ =~= args@);
                GateDefn::Other { name: name.clone(), params: p, args: a }
            },
            GateDefn::CCX { control1, control2, target } => GateDefn::CCX {
                control1: *control1,
                control2: *control2,
                target: *target,
            },
            GateDefn::CPhase { control, target, rot } => GateDefn::CPhase {
                control: *control,
                target: *target,
                rot: *rot,
            },
            GateDefn::CSwap { control, target1, target2 } => GateDefn::CSwap {
                control: *control,
                target1: *target1,
                target2: *target2,
            },
            GateDefn::CX { control, target } => GateDefn::CX { control: *control, target: *target },
            GateDefn::CZ { control, target } => GateDefn::CZ { control: *control, target: *target },
            GateDefn::FSim { left, right, theta, phi } => GateDefn::FSim {
                left: *left,
                right: *right,
                theta: *theta,
                phi: *phi,
            },
            GateDefn::Hadamard(q) => GateDefn::Hadamard(*q),
            GateDefn::PauliY(q) => GateDefn::PauliY(*q),
            GateDefn::PauliZ(q) => GateDefn::PauliZ(*q),
            GateDefn::Phase { rot, target } => GateDefn::Phase { rot: *rot, target: *target },
            GateDefn::RX { rot, target } => GateDefn::RX { rot: *rot, target: *target },
            GateDefn::RY { rot, target } => GateDefn::RY { rot: *rot, target: *target },
            GateDefn::RZ { rot, target } => GateDefn::RZ { rot: *rot, target: *target },
            GateDefn::S(q) => GateDefn::S(*q),
            GateDefn::Sdg(q) => GateDefn::Sdg(*q),
            GateDefn::SqrtX(q) => GateDefn::SqrtX(*q),
            GateDefn::SqrtXdg(q) => GateDefn::SqrtXdg(*q),
            GateDefn::Swap { target1, target2 } => GateDefn::Swap {
                target1: *target1,
                target2: *target2,
            },
            GateDefn::T(q) => GateDefn::T(*q),
            GateDefn::Tdg(q) => GateDefn::Tdg(*q),
            GateDefn::U { target, theta, phi, lambda } => GateDefn::U {
                target: *target,
                theta: *theta,
                phi: *phi,
                lambda: *lambda,
            },
            GateDefn::X(q) => GateDefn::X(*q),
        }
    }

    /// The Toffoli pattern for a `CCX`; empty for any other gate.
    pub fn decompose_ccx(defn: &GateDefn) -> (r: Vec<GateDefn>)
        ensures
            r@ == (match *defn {
                GateDefn::CCX { control1, control2, target } => ccx_decomposition(
                    control1,
                    control2,
                    target,
                ),
                _ => Seq::<GateDefn>::empty(),
            }),
    {
        match defn {
            GateDefn::CCX { control1, control2, target } => {
                let r = vec![
                    GateDefn::Hadamard(*target),
                    // CNOT(control2 -> target)
                    GateDefn::CX { control: *control2, target: *target },
                    GateDefn::Tdg(*target),
                    // CNOT(control1 -> target)
                    GateDefn::CX { control: *control1, target: *target },
                    GateDefn::T(*target),
                    // CNOT(control2 -> target)
                    GateDefn::CX { control: *control2, target: *target },
                    GateDefn::Tdg(*target),
                    // CNOT(control1 -> target)
                    GateDefn::CX { control: *control1, target: *target },
                    GateDefn::T(*control2),
                    GateDefn::T(*target),
                    GateDefn::Hadamard(*target),
                    // phase correction on the controls
                    GateDefn::CX { control: *control1, target: *control2 },
                    GateDefn::T(*control1),
                    GateDefn::Tdg(*control2),
                    GateDefn::CX { control: *control1, target: *control2 },
                ];
                assert(r@ =~= ccx_decomposition(*control1, *control2, *target));
                r
            },
            _ => Vec::new(),
        }
    }

    /// `CSwap` rewritten with `CX` and the Toffoli pattern; empty for any
    /// other gate.
    pub fn decompose_cswap(gate: &GateDefn) -> (r: Vec<GateDefn>)
        ensures
            r@ == (match *gate {
                GateDefn::CSwap { control, target1, target2 } => cswap_decomposition(
                    control,
                    target1,
                    target2,
                ),
                _ => Seq::<GateDefn>::empty(),
            }),
    {
        match *gate {
            GateDefn::CSwap { control, target1, target2 } => {
                let mut decomp = vec![GateDefn::CX { control: target1, target: target2 }];
                let ccx = GateDefn::CCX { control1: control, control2: target2, target: target1 };
                let mut middle = GateDefn::decompose_ccx(&ccx);
                decomp.append(&mut middle);
                decomp.push(GateDefn::CX { control: target1, target: target2 });
                assert(decomp@ =~= cswap_decomposition(control, target1, target2));
                decomp
            },
            _ => Vec::new(),
        }
    }

    /// `CCX` and `CSwap` become their patterns; any other gate stays as it is.
    pub fn decompose_gate(&self) -> (r: Vec<GateDefn>)
        ensures
            r@.len() == decomposition_spec(*self).len(),
            forall|i: int|
                0 <= i < r@.len() ==> same_defn(#[trigger] r@[i], decomposition_spec(*self)[i]),
    {
        match self {
            GateDefn::CCX { .. } => GateDefn::decompose_ccx(self),
            GateDefn::CSwap { .. } => GateDefn::decompose_cswap(self),
            _ => vec![self.duplicate()],
        }
    }
}

} // verus!
