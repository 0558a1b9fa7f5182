//! Symbolic gates and their push (forward) semantics.
//!
//! Amplitudes never appear here: a gate maps a basis label to one or two
//! labels, each paired with a symbolic `Factor` by which the incoming
//! amplitude is multiplied. Evaluating a factor to a complex number is left
//! to the numeric layer that drives the simulation.
use vstd::prelude::*;

use crate::basis_idx::{
    bit, flip_bit, set_bit, swap_bits, unset_bit, BasisIdx64, QubitIndex, MAX_QUBITS,
};
use crate::pull::{create_pull_action, pull_action_spec, pull_spec, PullAction};

verus! {

/// A rotation angle in radians, carried as the IEEE-754 bit pattern of a
/// 64-bit float.
#[derive(Clone, Copy, Debug, PartialEq, Eq, Structural, Hash)]
pub struct Angle {
    pub bits: u64,
}

/// A symbolic complex factor. Each variant names one closed-form value
/// (`Cis(a)` is `e^{i a}`).
#[derive(Clone, Copy, Debug, PartialEq, Eq, Structural)]
pub enum Factor {
    One,
    MinusOne,
    I,
    MinusI,
    /// `1/√2`
    RecipSqrt2,
    /// `-1/√2`
    MinusRecipSqrt2,
    /// `(1 + i)/2`
    HalfPlusHalfI,
    /// `(1 - i)/2`
    HalfMinusHalfI,
    /// `(1 + i)/√2`
    EighthTurn,
    /// `(1 - i)/√2`
    MinusEighthTurn,
    /// `e^{i a}`
    Cis(Angle),
    /// `e^{i a/2}`
    CisHalf(Angle),
    /// `e^{-i a/2}`
    CisMinusHalf(Angle),
    /// `cos(a/2)`
    CosHalf(Angle),
    /// `sin(a/2)`
    SinHalf(Angle),
    /// `-sin(a/2)`
    MinusSinHalf(Angle),
    /// `-i sin(a/2)`
    MinusISinHalf(Angle),
    /// `cos a`
    Cos(Angle),
    /// `-i sin a`
    MinusISin(Angle),
    /// `-sin(θ/2) e^{iλ}`
    UOffUpper { theta: Angle, lambda: Angle },
    /// `sin(θ/2) e^{iφ}`
    UOffLower { theta: Angle, phi: Angle },
    /// `cos(θ/2) e^{i(φ+λ)}`
    ULowerDiag { theta: Angle, phi: Angle, lambda: Angle },
}

/// Which entries of a gate's 2×2 unitary `(a, b; c, d)` are near zero.
/// Input `|0⟩` is carried by the column `(a, c)`, input `|1⟩` by `(b, d)`.
#[derive(Clone, Copy, Debug, PartialEq, Eq, Structural)]
pub struct EntryZeros {
    pub a: bool,
    pub b: bool,
    pub c: bool,
    pub d: bool,
}

impl EntryZeros {
    /// No entry is near zero.
    pub fn none() -> (r: EntryZeros)
        ensures
            !r.a && !r.b && !r.c && !r.d,
    {
        EntryZeros { a: false, b: false, c: false, d: false }
    }

    /// Some column of the unitary is wholly zero.
    pub open spec fn degenerate(self) -> bool {
        (self.a && self.c) || (self.b && self.d)
    }
}

/// Output of a forward application: one or two (label, factor) pairs.
#[derive(Clone, Copy, Debug)]
pub enum PushApplyOutput {
    Nonbranching(BasisIdx64, Factor),
    Branching((BasisIdx64, Factor), (BasisIdx64, Factor)),
}

/// Output of a reverse application: one or two (neighbor, multiplier) pairs.
#[derive(Clone, Copy, Debug)]
pub enum PullApplyOutput {
    Nonbranching(BasisIdx64, Factor),
    Branching((BasisIdx64, Factor), (BasisIdx64, Factor)),
}

#[derive(Clone, Copy, Debug, PartialEq, Eq, Structural)]
pub enum BranchingType {
    Nonbranching,
    Branching,
    MaybeBranching,
}

#[derive(Clone, Debug)]
pub enum GateDefn {
    CCX { control1: QubitIndex, control2: QubitIndex, target: QubitIndex },
    CPhase { control: QubitIndex, target: QubitIndex, rot: Angle },
    CSwap { control: QubitIndex, target1: QubitIndex, target2: QubitIndex },
    CX { control: QubitIndex, target: QubitIndex },
    CZ { control: QubitIndex, target: QubitIndex },
    FSim { left: QubitIndex, right: QubitIndex, theta: Angle, phi: Angle },
    Hadamard(QubitIndex),
    PauliY(QubitIndex),
    PauliZ(QubitIndex),
    Phase { rot: Angle, target: QubitIndex },
    RX { rot: Angle, target: QubitIndex },
    RY { rot: Angle, target: QubitIndex },
    RZ { rot: Angle, target: QubitIndex },
    S(QubitIndex),
    Sdg(QubitIndex),
    SqrtX(QubitIndex),
    SqrtXdg(QubitIndex),
    Swap { target1: QubitIndex, target2: QubitIndex },
    T(QubitIndex),
    Tdg(QubitIndex),
    U { target: QubitIndex, theta: Angle, phi: Angle, lambda: Angle },
    X(QubitIndex),
    Other { name: String, params: Vec<Angle>, args: Vec<QubitIndex> },
}

/// The qubits a gate acts on, in the order its fields list them.
pub open spec fn touches_spec(defn: GateDefn) -> Seq<QubitIndex> {
    match defn {
        GateDefn::CCX { control1, control2, target } => seq![control1, control2, target],
        GateDefn::CPhase { control, target, .. } => seq![control, target],
        GateDefn::CSwap { control, target1, target2 } => seq![control, target1, target2],
        GateDefn::CX { control, target } => seq![control, target],
        GateDefn::CZ { control, target } => seq![control, target],
        GateDefn::FSim { left, right, .. } => seq![left, right],
        GateDefn::Hadamard(q) => seq![q],
        GateDefn::PauliY(q) => seq![q],
        GateDefn::PauliZ(q) => seq![q],
        GateDefn::Phase { target, .. } => seq![target],
        GateDefn::RX { target, .. } => seq![target],
        GateDefn::RY { target, .. } => seq![target],
        GateDefn::RZ { target, .. } => seq![target],
        GateDefn::S(q) => seq![q],
        GateDefn::Sdg(q) => seq![q],
        GateDefn::SqrtX(q) => seq![q],
        GateDefn::SqrtXdg(q) => seq![q],
        GateDefn::Swap { target1, target2 } => seq![target1, target2],
        GateDefn::T(q) => seq![q],
        GateDefn::Tdg(q) => seq![q],
        GateDefn::U { target, .. } => seq![target],
        GateDefn::X(q) => seq![q],
        GateDefn::Other { .. } => seq![],
    }
}

/// Every touched qubit fits in a `BasisIdx64`.
/// (No gate touches more than three qubits.)
pub open spec fn qubits_in_range(defn: GateDefn) -> bool {
    let t = touches_spec(defn);
    &&& t.len() <= 3
    &&& t.len() > 0 ==> t[0] < MAX_QUBITS
    &&& t.len() > 1 ==> t[1] < MAX_QUBITS
    &&& t.len() > 2 ==> t[2] < MAX_QUBITS
}

pub open spec fn is_other(defn: GateDefn) -> bool {
    defn is Other
}

/// Gates given by a 2×2 unitary whose branching depends on its entries.
pub open spec fn is_unitary_gate(defn: GateDefn) -> bool {
    defn is RX || defn is U
}

pub open spec fn branching_spec(defn: GateDefn) -> BranchingType {
    match defn {
        GateDefn::Hadamard(_) | GateDefn::RY { .. } | GateDefn::SqrtX(_) | GateDefn::SqrtXdg(
            _,
        ) => BranchingType::Branching,
        GateDefn::FSim { .. } | GateDefn::RX { .. } | GateDefn::U { .. } => {
            BranchingType::MaybeBranching
        },
        _ => BranchingType::Nonbranching,
    }
}

/// Forward action of the generic 2×2 unitary `(a, b; c, d)` on `target`.
pub open spec fn unitary_push_spec(
    x: u64,
    target: QubitIndex,
    a: Factor,
    b: Factor,
    c: Factor,
    d: Factor,
    z: EntryZeros,
) -> PushApplyOutput {
    let t = target as u64;
    if z.a && z.d {
        PushApplyOutput::Nonbranching(
            BasisIdx64 { bits: flip_bit(x, t) },
            if bit(x, t) {
                b
            } else {
                c
            },
        )
    } else if z.c && z.b {
        PushApplyOutput::Nonbranching(
            BasisIdx64 { bits: x },
            if bit(x, t) {
                d
            } else {
                a
            },
        )
    } else if bit(x, t) {
        PushApplyOutput::Branching(
            (BasisIdx64 { bits: unset_bit(x, t) }, b),
            (BasisIdx64 { bits: set_bit(x, t) }, d),
        )
    } else {
        PushApplyOutput::Branching(
            (BasisIdx64 { bits: unset_bit(x, t) }, a),
            (BasisIdx64 { bits: set_bit(x, t) }, c),
        )
    }
}

pub open spec fn nb(x: u64, f: Factor) -> PushApplyOutput {
    PushApplyOutput::Nonbranching(BasisIdx64 { bits: x }, f)
}

pub open spec fn br(x0: u64, f0: Factor, x1: u64, f1: Factor) -> PushApplyOutput {
    PushApplyOutput::Branching((BasisIdx64 { bits: x0 }, f0), (BasisIdx64 { bits: x1 }, f1))
}

/// The forward action of every gate on the basis label `x`.
pub open spec fn push_spec(defn: GateDefn, x: u64, z: EntryZeros) -> PushApplyOutput {
    match defn {
        GateDefn::CCX { control1, control2, target } => nb(
            if bit(x, control1 as u64) && bit(x, control2 as u64) {
                flip_bit(x, target as u64)
            } else {
                x
            },
            Factor::One,
        ),
        GateDefn::CPhase { control, target, rot } => nb(
            x,
            if bit(x, control as u64) && bit(x, target as u64) {
                Factor::Cis(rot)
            } else {
                Factor::One
            },
        ),
        GateDefn::CSwap { control, target1, target2 } => nb(
            if bit(x, control as u64) {
                swap_bits(x, target1 as u64, target2 as u64)
            } else {
                x
            },
            Factor::One,
        ),
        GateDefn::CX { control, target } => nb(
            if bit(x, control as u64) {
                flip_bit(x, target as u64)
            } else {
                x
            },
            Factor::One,
        ),
        GateDefn::CZ { control, target } => nb(
            x,
            if bit(x, control as u64) && bit(x, target as u64) {
                Factor::MinusOne
            } else {
                Factor::One
            },
        ),
        GateDefn::FSim { left, right, theta, phi } => {
            let l = left as u64;
            let r = right as u64;
            if !bit(x, l) && !bit(x, r) {
                nb(x, Factor::One)
            } else if bit(x, l) && bit(x, r) {
                nb(x, Factor::Cis(phi))
            } else {
                let x0 = set_bit(unset_bit(x, l), r);
                let x1 = set_bit(unset_bit(x, r), l);
                if bit(x, l) {
                    br(x0, Factor::MinusISin(theta), x1, Factor::Cos(theta))
                } else {
                    br(x0, Factor::Cos(theta), x1, Factor::MinusISin(theta))
                }
            }
        },
        GateDefn::Hadamard(q) => {
            let t = q as u64;
            br(
                unset_bit(x, t),
                Factor::RecipSqrt2,
                set_bit(x, t),
                if bit(x, t) {
                    Factor::MinusRecipSqrt2
                } else {
                    Factor::RecipSqrt2
                },
            )
        },
        GateDefn::PauliY(q) => nb(
            flip_bit(x, q as u64),
            if bit(x, q as u64) {
                Factor::MinusI
            } else {
                Factor::I
            },
        ),
        GateDefn::PauliZ(q) => nb(
            x,
            if bit(x, q as u64) {
                Factor::MinusOne
            } else {
                Factor::One
            },
        ),
        GateDefn::Phase { rot, target } => nb(
            x,
            if bit(x, target as u64) {
                Factor::Cis(rot)
            } else {
                Factor::One
            },
        ),
        GateDefn::RX { rot, target } => unitary_push_spec(
            x,
            target,
            Factor::CosHalf(rot),
            Factor::MinusISinHalf(rot),
            Factor::MinusISinHalf(rot),
            Factor::CosHalf(rot),
            z,
        ),
        GateDefn::RY { rot, target } => {
            let t = target as u64;
            if bit(x, t) {
                br(unset_bit(x, t), Factor::MinusSinHalf(rot), set_bit(x, t), Factor::CosHalf(rot))
            } else {
                br(unset_bit(x, t), Factor::CosHalf(rot), set_bit(x, t), Factor::SinHalf(rot))
            }
        },
        GateDefn::RZ { rot, target } => nb(
            x,
            if bit(x, target as u64) {
                Factor::CisHalf(rot)
            } else {
                Factor::CisMinusHalf(rot)
            },
        ),
        GateDefn::S(q) => nb(
            x,
            if bit(x, q as u64) {
                Factor::I
            } else {
                Factor::One
            },
        ),
        GateDefn::Sdg(q) => nb(
            x,
            if bit(x, q as u64) {
                Factor::MinusI
            } else {
                Factor::One
            },
        ),
        GateDefn::SqrtX(q) => {
            let t = q as u64;
            if bit(x, t) {
                br(unset_bit(x, t), Factor::HalfMinusHalfI, set_bit(x, t), Factor::HalfPlusHalfI)
            } else {
                br(unset_bit(x, t), Factor::HalfPlusHalfI, set_bit(x, t), Factor::HalfMinusHalfI)
            }
        },
        GateDefn::SqrtXdg(q) => {
            let t = q as u64;
            if bit(x, t) {
                br(unset_bit(x, t), Factor::HalfPlusHalfI, set_bit(x, t), Factor::HalfMinusHalfI)
            } else {
                br(unset_bit(x, t), Factor::HalfMinusHalfI, set_bit(x, t), Factor::HalfPlusHalfI)
            }
        },
        GateDefn::Swap { target1, target2 } => nb(
            swap_bits(x, target1 as u64, target2 as u64),
            Factor::One,
        ),
        GateDefn::T(q) => nb(
            x,
            if bit(x, q as u64) {
                Factor::EighthTurn
            } else {
                Factor::One
            },
        ),
        GateDefn::Tdg(q) => nb(
            x,
            if bit(x, q as u64) {
                Factor::MinusEighthTurn
            } else {
                Factor::One
            },
        ),
        GateDefn::U { target, theta, phi, lambda } => unitary_push_spec(
            x,
            target,
            Factor::CosHalf(theta),
            Factor::UOffUpper { theta, lambda },
            Factor::UOffLower { theta, phi },
            Factor::ULowerDiag { theta, phi, lambda },
            z,
        ),
        GateDefn::X(q) => nb(flip_bit(x, q as u64), Factor::One),
        GateDefn::Other { .. } => nb(x, Factor::One),
    }
}

/// Push is defined for `defn`. It names qubits below 64 only, it is no
/// `Other`, and if unitary it has no zero column.
pub open spec fn push_ready(defn: GateDefn, z: EntryZeros) -> bool {
    &&& !is_other(defn)
    &&& qubits_in_range(defn)
    &&& (is_unitary_gate(defn) ==> !z.degenerate())
}

pub fn create_touches(defn: &GateDefn) -> (r: Vec<QubitIndex>)
    ensures
        r@ == touches_spec(*defn),
{
    match *defn {
        GateDefn::Hadamard(qi)
        | GateDefn::PauliY(qi)
        | GateDefn::PauliZ(qi)
        | GateDefn::Phase { target: qi, .. }
        | GateDefn::S(qi)
        | GateDefn::Sdg(qi)
        | GateDefn::SqrtX(qi)
        | GateDefn::SqrtXdg(qi)
        | GateDefn::T(qi)
        | GateDefn::Tdg(qi)
        | GateDefn::X(qi) => vec![qi],
        GateDefn::CPhase { control, target, .. }
        | GateDefn::CZ { control, target }
        | GateDefn::CX { control, target } => vec![control, target],
        GateDefn::CCX { control1, control2, target } => vec![control1, control2, target],
        GateDefn::FSim { left, right, .. } => vec![left, right],
        GateDefn::RX { target, .. } | GateDefn::RY { target, .. } | GateDefn::RZ {
            target,
            ..
        } => vec![target],
        GateDefn::CSwap { control, target1, target2 } => vec![control, target1, target2],
        GateDefn::Swap { target1, target2 } => vec![target1, target2],
        GateDefn::U { target, .. } => vec![target],
        GateDefn::Other { .. } => vec![],
    }
}

pub fn single_qubit_unitary_push(
    bidx: BasisIdx64,
    target: QubitIndex,
    a: Factor,
    b: Factor,
    c: Factor,
    d: Factor,
    z: EntryZeros,
) -> (r: PushApplyOutput)
    requires
        target < MAX_QUBITS,
        !z.degenerate(),
    ensures
        r == unitary_push_spec(bidx.bits, target, a, b, c, d, z),
{
    if z.a && z.d {
        let new_bidx = bidx.flip(target);
        let m = if bidx.get(target) {
            b
        } else {
            c
        };
        PushApplyOutput::Nonbranching(new_bidx, m)
    } else if z.c && z.b {
        let m = if bidx.get(target) {
            d
        } else {
            a
        };
        PushApplyOutput::Nonbranching(bidx, m)
    } else {
        let bidx0 = bidx.unset(target);
        let bidx1 = bidx.set(target);
        let (m0, m1) = if bidx.get(target) {
            (b, d)
        } else {
            (a, c)
        };
        PushApplyOutput::Branching((bidx0, m0), (bidx1, m1))
    }
}

impl GateDefn {
    pub fn branching_type(&self) -> (r: BranchingType)
        requires
            !is_other(*self),
        ensures
            r == branching_spec(*self),
    {
        match self {
            GateDefn::Hadamard(_) | GateDefn::RY { .. } | GateDefn::SqrtX(_) | GateDefn::SqrtXdg(
                _,
            ) => BranchingType::Branching,
            GateDefn::FSim { .. } | GateDefn::RX { .. } | GateDefn::U { .. } => {
                BranchingType::MaybeBranching
            },
            _ => BranchingType::Nonbranching,
        }
    }

    /// Forward action on `bidx`; `z` gives the near-zero entries of a
    /// unitary gate (`RX`, `U`) and is ignored by the others.
    pub fn push_apply(&self, bidx: BasisIdx64, z: EntryZeros) -> (r: PushApplyOutput)
        requires
            push_ready(*self, z),
        ensures
            r == push_spec(*self, bidx.bits, z),
    {
        match *self {
            GateDefn::CCX { control1, control2, target } => {
                let new_bidx = if bidx.get(control1) && bidx.get(control2) {
                    bidx.flip(target)
                } else {
                    bidx
                };
                PushApplyOutput::Nonbranching(new_bidx, Factor::One)
            },
            GateDefn::CPhase { control, target, rot } => {
                let m = if bidx.get(control) && bidx.get(target) {
                    Factor::Cis(rot)
                } else {
                    Factor::One
                };
                PushApplyOutput::Nonbranching(bidx, m)
            },
            GateDefn::CSwap { control, target1, target2 } => {
                let new_bidx = if bidx.get(control) {
                    bidx.swap(target1, target2)
                } else {
                    bidx
                };
                PushApplyOutput::Nonbranching(new_bidx, Factor::One)
            },
            GateDefn::CX { control, target } => {
                let new_bidx = if bidx.get(control) {
                    bidx.flip(target)
                } else {
                    bidx
                };
                PushApplyOutput::Nonbranching(new_bidx, Factor::One)
            },
            GateDefn::CZ { control, target } => {
                let m = if bidx.get(control) && bidx.get(target) {
                    Factor::MinusOne
                } else {
                    Factor::One
                };
                PushApplyOutput::Nonbranching(bidx, m)
            },
            GateDefn::FSim { left, right, theta, phi } => {
                let l = bidx.get(left);
                let r = bidx.get(right);
                if !l && !r {
                    PushApplyOutput::Nonbranching(bidx, Factor::One)
                } else if l && r {
                    PushApplyOutput::Nonbranching(bidx, Factor::Cis(phi))
                } else {
                    let bidx0 = bidx.unset(left).set(right);
                    let bidx1 = bidx.unset(right).set(left);
                    let ma = Factor::Cos(theta);
                    let mb = Factor::MinusISin(theta);
                    if l {
                        PushApplyOutput::Branching((bidx0, mb), (bidx1, ma))
                    } else {
                        PushApplyOutput::Branching((bidx0, ma), (bidx1, mb))
                    }
                }
            },
            GateDefn::Hadamard(qi) => {
                let bidx0 = bidx.unset(qi);
                let bidx1 = bidx.set(qi);
                if bidx.get(qi) {
                    PushApplyOutput::Branching(
                        (bidx0, Factor::RecipSqrt2),
                        (bidx1, Factor::MinusRecipSqrt2),
                    )
                } else {
                    PushApplyOutput::Branching(
                        (bidx0, Factor::RecipSqrt2),
                        (bidx1, Factor::RecipSqrt2),
                    )
                }
            },
            GateDefn::Phase { rot, target } => {
                let m = if bidx.get(target) {
                    Factor::Cis(rot)
                } else {
                    Factor::One
                };
                PushApplyOutput::Nonbranching(bidx, m)
            },
            GateDefn::RX { rot, target } => {
                let a = Factor::CosHalf(rot);
                let b = Factor::MinusISinHalf(rot);
                single_qubit_unitary_push(bidx, target, a, b, b, a, z)
            },
            GateDefn::RY { rot, target } => {
                let bidx0 = bidx.unset(target);
                let bidx1 = bidx.set(target);
                if bidx.get(target) {
                    PushApplyOutput::Branching(
                        (bidx0, Factor::MinusSinHalf(rot)),
                        (bidx1, Factor::CosHalf(rot)),
                    )
                } else {
                    PushApplyOutput::Branching(
                        (bidx0, Factor::CosHalf(rot)),
                        (bidx1, Factor::SinHalf(rot)),
                    )
                }
            },
            GateDefn::RZ { rot, target } => {
                let m = if bidx.get(target) {
                    Factor::CisHalf(rot)
                } else {
                    Factor::CisMinusHalf(rot)
                };
                PushApplyOutput::Nonbranching(bidx, m)
            },
            GateDefn::S(qi) => {
                let m = if bidx.get(qi) {
                    Factor::I
                } else {
                    Factor::One
                };
                PushApplyOutput::Nonbranching(bidx, m)
            },
            GateDefn::Sdg(qi) => {
                let m = if bidx.get(qi) {
                    Factor::MinusI
                } else {
                    Factor::One
                };
                PushApplyOutput::Nonbranching(bidx, m)
            },
            GateDefn::Swap { target1, target2 } => {
                PushApplyOutput::Nonbranching(bidx.swap(target1, target2), Factor::One)
            },
            GateDefn::SqrtX(qi) => {
                let bidx0 = bidx.unset(qi);
                let bidx1 = bidx.set(qi);
                let ma = Factor::HalfPlusHalfI;
                let mb = Factor::HalfMinusHalfI;
                if bidx.get(qi) {
                    PushApplyOutput::Branching((bidx0, mb), (bidx1, ma))
                } else {
                    PushApplyOutput::Branching((bidx0, ma), (bidx1, mb))
                }
            },
            GateDefn::SqrtXdg(qi) => {
                let bidx0 = bidx.unset(qi);
                let bidx1 = bidx.set(qi);
                let ma = Factor::HalfPlusHalfI;
                let mb = Factor::HalfMinusHalfI;
                if bidx.get(qi) {
                    PushApplyOutput::Branching((bidx0, ma), (bidx1, mb))
                } else {
                    PushApplyOutput::Branching((bidx0, mb), (bidx1, ma))
                }
            },
            GateDefn::T(qi) => {
                let m = if bidx.get(qi) {
                    Factor::EighthTurn
                } else {
                    Factor::One
                };
                PushApplyOutput::Nonbranching(bidx, m)
            },
            GateDefn::Tdg(qi) => {
                let m = if bidx.get(qi) {
                    Factor::MinusEighthTurn
                } else {
                    Factor::One
                };
                PushApplyOutput::Nonbranching(bidx, m)
            },
            GateDefn::U { target, theta, phi, lambda } => {
                let a = Factor::CosHalf(theta);
                let b = Factor::UOffUpper { theta, lambda };
                let c = Factor::UOffLower { theta, phi };
                let d = Factor::ULowerDiag { theta, phi, lambda };
                single_qubit_unitary_push(bidx, target, a, b, c, d, z)
            },
            GateDefn::PauliY(qi) => {
                let m = if bidx.get(qi) {
                    Factor::MinusI
                } else {
                    Factor::I
                };
                PushApplyOutput::Nonbranching(bidx.flip(qi), m)
            },
            GateDefn::PauliZ(qi) => {
                let m = if bidx.get(qi) {
                    Factor::MinusOne
                } else {
                    Factor::One
                };
                PushApplyOutput::Nonbranching(bidx, m)
            },
            GateDefn::X(qi) => PushApplyOutput::Nonbranching(bidx.flip(qi), Factor::One),
            GateDefn::Other { .. } => PushApplyOutput::Nonbranching(bidx, Factor::One),
        }
    }
}

/// Why a gate cannot be applied.
#[derive(Clone, Copy, Debug, PartialEq, Eq, Structural)]
pub enum GateError {
    /// An `Other` gate: it has to be decomposed before it can be applied.
    UnsupportedGate,
    /// A unitary gate with a column of near-zero entries.
    NumericDegenerate,
    /// A touched qubit does not fit in a basis label.
    QubitIndexOutOfRange,
}

/// A gate ready for application: its definition, the qubits it touches, and
/// its pull action where it has one.
#[derive(Debug)]
pub struct Gate {
    pub defn: GateDefn,
    pub touches: Vec<QubitIndex>,
    pub pull_action: Option<PullAction>,
    /// Near-zero entries of the unitary of an `RX` or `U` gate.
    pub zeros: EntryZeros,
}

/// The error `Gate::new` reports for `defn`, if any.
pub open spec fn gate_error_spec(defn: GateDefn, z: EntryZeros) -> Option<GateError> {
    if is_other(defn) {
        Some(GateError::UnsupportedGate)
    } else if !qubits_in_range(defn) {
        Some(GateError::QubitIndexOutOfRange)
    } else if is_unitary_gate(defn) && z.degenerate() {
        Some(GateError::NumericDegenerate)
    } else {
        None
    }
}

/// Applies a gate forward to a basis label.
pub trait PushApplicable {
    spec fn applicable(&self) -> bool;

    spec fn push_of(&self, x: u64) -> PushApplyOutput;

    fn push_apply(&self, bidx: BasisIdx64) -> (r: PushApplyOutput)
        requires
            self.applicable(),
        ensures
            r == self.push_of(bidx.bits),
    ;
}

fn check_qubits(touches: &Vec<QubitIndex>) -> (r: bool)
    ensures
        r == forall|i: int| 0 <= i < touches@.len() ==> touches@[i] < MAX_QUBITS,
{
    let mut i: usize = 0;
    while i < touches.len()
        invariant
            i <= touches@.len(),
            forall|k: int| 0 <= k < i ==> touches@[k] < MAX_QUBITS,
        decreases touches.len() - i,
    {
        if touches[i] >= MAX_QUBITS {
            return false;
        }
        i = i + 1;
    }
    true
}

impl Gate {
    pub open spec fn wf(&self) -> bool {
        &&& push_ready(self.defn, self.zeros)
        &&& self.touches@ == touches_spec(self.defn)
        &&& self.pull_action == pull_action_spec(self.defn, self.zeros)
    }

    /// `zeros` says which entries of the unitary of an `RX` or `U` gate are
    /// near zero; other gates ignore it.
    pub fn new(defn: GateDefn, zeros: EntryZeros) -> (r: Result<Gate, GateError>)
        ensures
            match r {
                Ok(g) => {
                    &&& gate_error_spec(defn, zeros) is None
                    &&& g.defn == defn
                    &&& g.zeros == zeros
                    &&& g.wf()
                },
                Err(e) => gate_error_spec(defn, zeros) == Some(e),
            },
    {
        if let GateDefn::Other { .. } = defn {
            return Err(GateError::UnsupportedGate);
        }
        let touches = create_touches(&defn);
        if !check_qubits(&touches) {
            assert(!qubits_in_range(defn)) by {
                let i = choose|i: int| 0 <= i < touches@.len() && !(touches@[i] < MAX_QUBITS);
            }
            return Err(GateError::QubitIndexOutOfRange);
        }
        let unitary = match defn {
            GateDefn::RX { .. } | GateDefn::U { .. } => true,
            _ => false,
        };
        if unitary && ((zeros.a && zeros.c) || (zeros.b && zeros.d)) {
            return Err(GateError::NumericDegenerate);
        }
        let pull_action = create_pull_action(&defn, &touches, zeros);
        Ok(Gate { defn, touches, pull_action, zeros })
    }

    pub fn is_branching(&self) -> (r: bool)
        requires
            self.wf(),
        ensures
            r == (branching_spec(self.defn) != BranchingType::Nonbranching),
    {
        // MaybeBranching counts as branching
        self.defn.branching_type() != BranchingType::Nonbranching
    }

    pub fn is_pullable(&self) -> (r: bool)
        ensures
            r == self.pull_action is Some,
    {
        self.pull_action.is_some()
    }

    /// Reverse application to the output label `bidx`.
    pub fn pull_apply(&self, bidx: BasisIdx64) -> (r: PullApplyOutput)
        requires
            self.wf(),
            self.pull_action is Some,
        ensures
            r == pull_spec(self.pull_action->Some_0, bidx.bits),
    {
        match &self.pull_action {
            Some(pa) => pa.pull_apply(bidx),
            None => PullApplyOutput::Nonbranching(bidx, Factor::One),
        }
    }
}

impl PushApplicable for Gate {
    open spec fn applicable(&self) -> bool {
        self.wf()
    }

    open spec fn push_of(&self, x: u64) -> PushApplyOutput {
        push_spec(self.defn, x, self.zeros)
    }

    fn push_apply(&self, bidx: BasisIdx64) -> (r: PushApplyOutput) {
        self.defn.push_apply(bidx, self.zeros)
    }
}

} // verus!
