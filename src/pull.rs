//! Pull (reverse) actions: for an output label, the one or two source labels
//! and the multipliers that carry their amplitudes to it.
use vstd::prelude::*;

use crate::basis_idx::{
    bit, flip_bit, put_bit, set_bit, unset_bit, BasisIdx64, QubitIndex, MAX_QUBITS,
};
use crate::gate::{
    branching_spec, push_ready, push_spec, touches_spec, BranchingType, EntryZeros, Factor,
    GateDefn, PullApplyOutput, PushApplyOutput,
};

verus! {

/// Where the amplitude for one two-qubit pattern of the output comes from:
/// the pattern of the source on the two qubits, and its multiplier.
#[derive(Clone, Copy, Debug, PartialEq, Eq, Structural)]
pub struct Source2 {
    pub left: bool,
    pub right: bool,
    pub mult: Factor,
}

/// A gate's pull action as data.
#[derive(Clone, Copy, Debug, PartialEq, Eq, Structural)]
pub enum PullAction {
    CX { control: QubitIndex, target: QubitIndex },
    CZ { control: QubitIndex, target: QubitIndex },
    Hadamard(QubitIndex),
    Phase { rot: crate::gate::Angle, target: QubitIndex },
    RY { rot: crate::gate::Angle, target: QubitIndex },
    RZ { rot: crate::gate::Angle, target: QubitIndex },
    SqrtX(QubitIndex),
    SqrtXdg(QubitIndex),
    /// The 2×2 unitary `(a, b; c, d)` on `target`.
    Unitary { target: QubitIndex, a: Factor, b: Factor, c: Factor, d: Factor, zeros: EntryZeros },
    /// Derived from a one-qubit nonbranching push: the source is the output
    /// itself, or the output with `qubit` flipped; `m0` and `m1` are the
    /// push multipliers for a source bit of 0 and 1.
    Perm1 { qubit: QubitIndex, flips: bool, m0: Factor, m1: Factor },
    /// Derived from a two-qubit nonbranching push: `sLR` is the source for an
    /// output whose bits at (`qi`, `qj`) are (`L`, `R`).
    Perm2 { qi: QubitIndex, qj: QubitIndex, s00: Source2, s01: Source2, s10: Source2, s11: Source2 },
    /// Derived from a one-qubit branching push: `mBA` carries source bit `B`
    /// to output bit `A`.
    Branch1 { qubit: QubitIndex, m00: Factor, m01: Factor, m10: Factor, m11: Factor },
}

pub open spec fn pnb(x: u64, f: Factor) -> PullApplyOutput {
    PullApplyOutput::Nonbranching(BasisIdx64 { bits: x }, f)
}

pub open spec fn pbr(x0: u64, f0: Factor, x1: u64, f1: Factor) -> PullApplyOutput {
    PullApplyOutput::Branching((BasisIdx64 { bits: x0 }, f0), (BasisIdx64 { bits: x1 }, f1))
}

/// Reverse action of the generic 2×2 unitary `(a, b; c, d)` on `target`.
pub open spec fn unitary_pull_spec(
    y: u64,
    target: QubitIndex,
    a: Factor,
    b: Factor,
    c: Factor,
    d: Factor,
    z: EntryZeros,
) -> PullApplyOutput {
    let t = target as u64;
    if z.a && z.d {
        pnb(
            flip_bit(y, t),
            if bit(y, t) {
                c
            } else {
                b
            },
        )
    } else if z.c && z.b {
        pnb(
            y,
            if bit(y, t) {
                d
            } else {
                a
            },
        )
    } else if bit(y, t) {
        pbr(unset_bit(y, t), c, set_bit(y, t), d)
    } else {
        pbr(unset_bit(y, t), a, set_bit(y, t), b)
    }
}

pub open spec fn source_for(s00: Source2, s01: Source2, s10: Source2, s11: Source2, l: bool, r: bool) -> Source2 {
    if l {
        if r {
            s11
        } else {
            s10
        }
    } else {
        if r {
            s01
        } else {
            s00
        }
    }
}

/// What a pull action returns for the output label `y`.
pub open spec fn pull_spec(pa: PullAction, y: u64) -> PullApplyOutput {
    match pa {
        PullAction::CX { control, target } => pnb(
            if bit(y, control as u64) {
                flip_bit(y, target as u64)
            } else {
                y
            },
            Factor::One,
        ),
        PullAction::CZ { control, target } => pnb(
            y,
            if bit(y, control as u64) && bit(y, target as u64) {
                Factor::MinusOne
            } else {
                Factor::One
            },
        ),
        PullAction::Hadamard(q) => {
            let t = q as u64;
            pbr(
                unset_bit(y, t),
                Factor::RecipSqrt2,
                set_bit(y, t),
                if bit(y, t) {
                    Factor::MinusRecipSqrt2
                } else {
                    Factor::RecipSqrt2
                },
            )
        },
        PullAction::Phase { rot, target } => pnb(
            y,
            if bit(y, target as u64) {
                Factor::Cis(rot)
            } else {
                Factor::One
            },
        ),
        PullAction::RY { rot, target } => {
            let t = target as u64;
            if bit(y, t) {
                pbr(unset_bit(y, t), Factor::SinHalf(rot), set_bit(y, t), Factor::CosHalf(rot))
            } else {
                pbr(unset_bit(y, t), Factor::CosHalf(rot), set_bit(y, t), Factor::MinusSinHalf(rot))
            }
        },
        PullAction::RZ { rot, target } => pnb(
            y,
            if bit(y, target as u64) {
                Factor::CisHalf(rot)
            } else {
                Factor::CisMinusHalf(rot)
            },
        ),
        PullAction::SqrtX(q) => {
            let t = q as u64;
            if bit(y, t) {
                pbr(unset_bit(y, t), Factor::HalfMinusHalfI, set_bit(y, t), Factor::HalfPlusHalfI)
            } else {
                pbr(unset_bit(y, t), Factor::HalfPlusHalfI, set_bit(y, t), Factor::HalfMinusHalfI)
            }
        },
        PullAction::SqrtXdg(q) => {
            let t = q as u64;
            if bit(y, t) {
                pbr(unset_bit(y, t), Factor::HalfPlusHalfI, set_bit(y, t), Factor::HalfMinusHalfI)
            } else {
                pbr(unset_bit(y, t), Factor::HalfMinusHalfI, set_bit(y, t), Factor::HalfPlusHalfI)
            }
        },
        PullAction::Unitary { target, a, b, c, d, zeros } => unitary_pull_spec(
            y,
            target,
            a,
            b,
            c,
            d,
            zeros,
        ),
        PullAction::Perm1 { qubit, flips, m0, m1 } => {
            let t = qubit as u64;
            if flips {
                pnb(
                    flip_bit(y, t),
                    if bit(y, t) {
                        m0
                    } else {
                        m1
                    },
                )
            } else {
                pnb(
                    y,
                    if bit(y, t) {
                        m1
                    } else {
                        m0
                    },
                )
            }
        },
        PullAction::Perm2 { qi, qj, s00, s01, s10, s11 } => {
            let s = source_for(s00, s01, s10, s11, bit(y, qi as u64), bit(y, qj as u64));
            pnb(put_bit(put_bit(y, qi as u64, s.left), qj as u64, s.right), s.mult)
        },
        PullAction::Branch1 { qubit, m00, m01, m10, m11 } => {
            let t = qubit as u64;
            if bit(y, t) {
                pbr(unset_bit(y, t), m01, y, m11)
            } else {
                pbr(y, m00, set_bit(y, t), m10)
            }
        },
    }
}

/// Every qubit a pull action names fits in a `BasisIdx64`.
pub open spec fn pull_qubits_in_range(pa: PullAction) -> bool {
    match pa {
        PullAction::CX { control, target } => control < MAX_QUBITS && target < MAX_QUBITS,
        PullAction::CZ { control, target } => control < MAX_QUBITS && target < MAX_QUBITS,
        PullAction::Hadamard(q) => q < MAX_QUBITS,
        PullAction::Phase { target, .. } => target < MAX_QUBITS,
        PullAction::RY { target, .. } => target < MAX_QUBITS,
        PullAction::RZ { target, .. } => target < MAX_QUBITS,
        PullAction::SqrtX(q) => q < MAX_QUBITS,
        PullAction::SqrtXdg(q) => q < MAX_QUBITS,
        PullAction::Unitary { target, .. } => target < MAX_QUBITS,
        PullAction::Perm1 { qubit, .. } => qubit < MAX_QUBITS,
        PullAction::Perm2 { qi, qj, .. } => qi < MAX_QUBITS && qj < MAX_QUBITS,
        PullAction::Branch1 { qubit, .. } => qubit < MAX_QUBITS,
    }
}

pub fn single_qubit_unitary_pull(
    bidx: BasisIdx64,
    target: QubitIndex,
    a: Factor,
    b: Factor,
    c: Factor,
    d: Factor,
    z: EntryZeros,
) -> (r: PullApplyOutput)
    requires
        target < MAX_QUBITS,
        !z.degenerate(),
    ensures
        r == unitary_pull_spec(bidx.bits, target, a, b, c, d, z),
{
    if z.a && z.d {
        let neighbor = bidx.flip(target);
        let multiplier = if bidx.get(target) {
            c
        } else {
            b
        };
        PullApplyOutput::Nonbranching(neighbor, multiplier)
    } else if z.c && z.b {
        let multiplier = if bidx.get(target) {
            d
        } else {
            a
        };
        PullApplyOutput::Nonbranching(bidx, multiplier)
    } else {
        let bidx0 = bidx.unset(target);
        let bidx1 = bidx.set(target);
        if bidx.get(target) {
            PullApplyOutput::Branching((bidx0, c), (bidx1, d))
        } else {
            PullApplyOutput::Branching((bidx0, a), (bidx1, b))
        }
    }
}

impl PullAction {
    pub fn pull_apply(&self, bidx: BasisIdx64) -> (r: PullApplyOutput)
        requires
            pull_qubits_in_range(*self),
            self is Unitary ==> !self->zeros.degenerate(),
        ensures
            r == pull_spec(*self, bidx.bits),
    {
        match *self {
            PullAction::CX { control, target } => {
                if bidx.get(control) {
                    PullApplyOutput::Nonbranching(bidx.flip(target), Factor::One)
                } else {
                    PullApplyOutput::Nonbranching(bidx, Factor::One)
                }
            },
            PullAction::CZ { control, target } => {
                if bidx.get(control) && bidx.get(target) {
                    PullApplyOutput::Nonbranching(bidx, Factor::MinusOne)
                } else {
                    PullApplyOutput::Nonbranching(bidx, Factor::One)
                }
            },
            PullAction::Hadamard(qi) => {
                let bidx0 = bidx.unset(qi);
                let bidx1 = bidx.set(qi);
                if bidx.get(qi) {
                    PullApplyOutput::Branching(
                        (bidx0, Factor::RecipSqrt2),
                        (bidx1, Factor::MinusRecipSqrt2),
                    )
                } else {
                    PullApplyOutput::Branching(
                        (bidx0, Factor::RecipSqrt2),
                        (bidx1, Factor::RecipSqrt2),
                    )
                }
            },
            PullAction::Phase { rot, target } => {
                if bidx.get(target) {
                    PullApplyOutput::Nonbranching(bidx, Factor::Cis(rot))
                } else {
                    PullApplyOutput::Nonbranching(bidx, Factor::One)
                }
            },
            PullAction::RY { rot, target } => {
                let bidx0 = bidx.unset(target);
                let bidx1 = bidx.set(target);
                if bidx.get(target) {
                    PullApplyOutput::Branching(
                        (bidx0, Factor::SinHalf(rot)),
                        (bidx1, Factor::CosHalf(rot)),
                    )
                } else {
                    PullApplyOutput::Branching(
                        (bidx0, Factor::CosHalf(rot)),
                        (bidx1, Factor::MinusSinHalf(rot)),
                    )
                }
            },
            PullAction::RZ { rot, target } => {
                if bidx.get(target) {
                    PullApplyOutput::Nonbranching(bidx, Factor::CisHalf(rot))
                } else {
                    PullApplyOutput::Nonbranching(bidx, Factor::CisMinusHalf(rot))
                }
            },
            PullAction::SqrtX(qi) => {
                let bidx0 = bidx.unset(qi);
                let bidx1 = bidx.set(qi);
                if bidx.get(qi) {
                    PullApplyOutput::Branching(
                        (bidx0, Factor::HalfMinusHalfI),
                        (bidx1, Factor::HalfPlusHalfI),
                    )
                } else {
                    PullApplyOutput::Branching(
                        (bidx0, Factor::HalfPlusHalfI),
                        (bidx1, Factor::HalfMinusHalfI),
                    )
                }
            },
            PullAction::SqrtXdg(qi) => {
                let bidx0 = bidx.unset(qi);
                let bidx1 = bidx.set(qi);
                if bidx.get(qi) {
                    PullApplyOutput::Branching(
                        (bidx0, Factor::HalfPlusHalfI),
                        (bidx1, Factor::HalfMinusHalfI),
                    )
                } else {
                    PullApplyOutput::Branching(
                        (bidx0, Factor::HalfMinusHalfI),
                        (bidx1, Factor::HalfPlusHalfI),
                    )
                }
            },
            PullAction::Unitary { target, a, b, c, d, zeros } => {
                single_qubit_unitary_pull(bidx, target, a, b, c, d, zeros)
            },
            PullAction::Perm1 { qubit, flips, m0, m1 } => {
                if flips {
                    let m = if bidx.get(qubit) {
                        m0
                    } else {
                        m1
                    };
                    PullApplyOutput::Nonbranching(bidx.flip(qubit), m)
                } else {
                    let m = if bidx.get(qubit) {
                        m1
                    } else {
                        m0
                    };
                    PullApplyOutput::Nonbranching(bidx, m)
                }
            },
            PullAction::Perm2 { qi, qj, s00, s01, s10, s11 } => {
                let s = match (bidx.get(qi), bidx.get(qj)) {
                    (true, true) => s11,
                    (true, false) => s10,
                    (false, true) => s01,
                    (false, false) => s00,
                };
                let aligned_i = if s.left {
                    bidx.set(qi)
                } else {
                    bidx.unset(qi)
                };
                let aligned = if s.right {
                    aligned_i.set(qj)
                } else {
                    aligned_i.unset(qj)
                };
                PullApplyOutput::Nonbranching(aligned, s.mult)
            },
            PullAction::Branch1 { qubit, m00, m01, m10, m11 } => {
                if bidx.get(qubit) {
                    PullApplyOutput::Branching((bidx.unset(qubit), m01), (bidx, m11))
                } else {
                    let bidx2 = bidx.set(qubit);
                    PullApplyOutput::Branching((bidx, m00), (bidx2, m10))
                }
            },
        }
    }
}

/// One probe of a push action: a source label, its image, and the multiplier.
#[derive(Clone, Copy, Debug, PartialEq, Eq, Structural)]
pub struct Probe {
    pub source: BasisIdx64,
    pub image: BasisIdx64,
    pub mult: Factor,
}

pub open spec fn probe_hits(p: Probe, qi: QubitIndex, qj: QubitIndex, l: bool, r: bool) -> bool {
    bit(p.image.bits, qi as u64) == l && bit(p.image.bits, qj as u64) == r
}

pub open spec fn probe_source(p: Probe, qi: QubitIndex, qj: QubitIndex) -> Source2 {
    Source2 { left: bit(p.source.bits, qi as u64), right: bit(p.source.bits, qj as u64), mult: p.mult }
}

/// The first probe whose image shows the pattern (`l`, `r`) on (`qi`, `qj`).
pub open spec fn find_source_spec(
    qi: QubitIndex,
    qj: QubitIndex,
    p00: Probe,
    p01: Probe,
    p10: Probe,
    p11: Probe,
    l: bool,
    r: bool,
) -> Option<Source2> {
    if probe_hits(p00, qi, qj, l, r) {
        Some(probe_source(p00, qi, qj))
    } else if probe_hits(p01, qi, qj, l, r) {
        Some(probe_source(p01, qi, qj))
    } else if probe_hits(p10, qi, qj, l, r) {
        Some(probe_source(p10, qi, qj))
    } else if probe_hits(p11, qi, qj, l, r) {
        Some(probe_source(p11, qi, qj))
    } else {
        None
    }
}

pub open spec fn probe_spec(defn: GateDefn, x: u64, z: EntryZeros) -> Option<Probe> {
    match push_spec(defn, x, z) {
        PushApplyOutput::Nonbranching(b, m) => Some(Probe { source: BasisIdx64 { bits: x }, image: b, mult: m }),
        _ => None,
    }
}

/// The pull action derived from two-qubit nonbranching probes.
pub open spec fn derived_perm2(defn: GateDefn, qi: QubitIndex, qj: QubitIndex, z: EntryZeros) -> Option<PullAction> {
    let a01 = set_bit(0, qj as u64);
    let a10 = set_bit(0, qi as u64);
    let a11 = set_bit(set_bit(0, qi as u64), qj as u64);
    match (probe_spec(defn, 0, z), probe_spec(defn, a01, z), probe_spec(defn, a10, z), probe_spec(defn, a11, z)) {
        (Some(p00), Some(p01), Some(p10), Some(p11)) => {
            match (
                find_source_spec(qi, qj, p00, p01, p10, p11, false, false),
                find_source_spec(qi, qj, p00, p01, p10, p11, false, true),
                find_source_spec(qi, qj, p00, p01, p10, p11, true, false),
                find_source_spec(qi, qj, p00, p01, p10, p11, true, true),
            ) {
                (Some(s00), Some(s01), Some(s10), Some(s11)) => Some(PullAction::Perm2 { qi, qj, s00, s01, s10, s11 }),
                _ => None,
            }
        },
        _ => None,
    }
}

/// The pull action derived from one-qubit branching probes, branches ordered
/// so that the first lands on bit 0.
pub open spec fn derived_branch1(defn: GateDefn, q: QubitIndex, z: EntryZeros) -> Option<PullAction> {
    let t = q as u64;
    match (push_spec(defn, 0, z), push_spec(defn, set_bit(0, t), z)) {
        (
            PushApplyOutput::Branching((b00, m00), (b01, m01)),
            PushApplyOutput::Branching((b10, m10), (b11, m11)),
        ) => {
            let (c00, n00, c01, n01) = if bit(b00.bits, t) {
                (b01, m01, b00, m00)
            } else {
                (b00, m00, b01, m01)
            };
            let (c10, n10, c11, n11) = if bit(b10.bits, t) {
                (b11, m11, b10, m10)
            } else {
                (b10, m10, b11, m11)
            };
            if !bit(c00.bits, t) && !bit(c10.bits, t) && bit(c01.bits, t) && bit(c11.bits, t) {
                Some(PullAction::Branch1 { qubit: q, m00: n00, m01: n01, m10: n10, m11: n11 })
            } else {
                None
            }
        },
        _ => None,
    }
}

/// The pull action that probing the push action yields, if any.
pub open spec fn derived_pull_spec(defn: GateDefn, z: EntryZeros) -> Option<PullAction> {
    let t = touches_spec(defn);
    if t.len() == 1 && branching_spec(defn) == BranchingType::Nonbranching {
        let q = t[0];
        match (push_spec(defn, 0, z), push_spec(defn, set_bit(0, q as u64), z)) {
            (PushApplyOutput::Nonbranching(b0, m0), PushApplyOutput::Nonbranching(_, m1)) => Some(
                PullAction::Perm1 { qubit: q, flips: b0.bits != 0, m0, m1 },
            ),
            _ => None,
        }
    } else if t.len() == 2 && branching_spec(defn) == BranchingType::Nonbranching {
        derived_perm2(defn, t[0], t[1], z)
    } else if t.len() == 1 && branching_spec(defn) == BranchingType::Branching {
        derived_branch1(defn, t[0], z)
    } else {
        None
    }
}

fn probe(defn: &GateDefn, x: BasisIdx64, z: EntryZeros) -> (r: Option<Probe>)
    requires
        push_ready(*defn, z),
    ensures
        r == probe_spec(*defn, x.bits, z),
{
    match defn.push_apply(x, z) {
        PushApplyOutput::Nonbranching(bidx, multiplier) => Some(
            Probe { source: x, image: bidx, mult: multiplier },
        ),
        _ => None,
    }
}

fn find_source(
    qi: QubitIndex,
    qj: QubitIndex,
    p00: Probe,
    p01: Probe,
    p10: Probe,
    p11: Probe,
    l: bool,
    r: bool,
) -> (res: Option<Source2>)
    requires
        qi < MAX_QUBITS,
        qj < MAX_QUBITS,
    ensures
        res == find_source_spec(qi, qj, p00, p01, p10, p11, l, r),
{
    if p00.image.get(qi) == l && p00.image.get(qj) == r {
        Some(Source2 { left: p00.source.get(qi), right: p00.source.get(qj), mult: p00.mult })
    } else if p01.image.get(qi) == l && p01.image.get(qj) == r {
        Some(Source2 { left: p01.source.get(qi), right: p01.source.get(qj), mult: p01.mult })
    } else if p10.image.get(qi) == l && p10.image.get(qj) == r {
        Some(Source2 { left: p10.source.get(qi), right: p10.source.get(qj), mult: p10.mult })
    } else if p11.image.get(qi) == l && p11.image.get(qj) == r {
        Some(Source2 { left: p11.source.get(qi), right: p11.source.get(qj), mult: p11.mult })
    } else {
        None
    }
}

/// Derives a pull action by probing the push action on basis labels: a
/// one-qubit nonbranching gate on both values of its qubit, a two-qubit
/// nonbranching gate on the four patterns of its qubits, a one-qubit
/// branching gate on both values. Any other gate, or probes that do not fit
/// these shapes, give no pull action.
pub fn push_to_pull(defn: &GateDefn, touches: &Vec<QubitIndex>, z: EntryZeros) -> (r: Option<PullAction>)
    requires
        push_ready(*defn, z),
        touches@ == touches_spec(*defn),
    ensures
        r == derived_pull_spec(*defn, z),
{
    let bt = defn.branching_type();
    if touches.len() == 1 && bt == BranchingType::Nonbranching {
        let qi = touches[0];
        let zeros = BasisIdx64::zeros();
        let (b0, m0) = match defn.push_apply(zeros, z) {
            PushApplyOutput::Nonbranching(bidx, multiplier) => (bidx, multiplier),
            _ => {
                return None;
            },
        };
        let m1 = match defn.push_apply(zeros.set(qi), z) {
            PushApplyOutput::Nonbranching(_, multiplier) => multiplier,
            _ => {
                return None;
            },
        };
        Some(PullAction::Perm1 { qubit: qi, flips: !(b0 == zeros), m0, m1 })
    } else if touches.len() == 2 && bt == BranchingType::Nonbranching {
        let qi = touches[0];
        let qj = touches[1];
        let a00 = BasisIdx64::zeros();
        let a01 = a00.set(qj);
        let a10 = a00.set(qi);
        let a11 = a00.set(qi).set(qj);
        let p00 = match probe(defn, a00, z) {
            Some(p) => p,
            None => {
                return None;
            },
        };
        let p01 = match probe(defn, a01, z) {
            Some(p) => p,
            None => {
                return None;
            },
        };
        let p10 = match probe(defn, a10, z) {
            Some(p) => p,
            None => {
                return None;
            },
        };
        let p11 = match probe(defn, a11, z) {
            Some(p) => p,
            None => {
                return None;
            },
        };
        match (
            find_source(qi, qj, p00, p01, p10, p11, false, false),
            find_source(qi, qj, p00, p01, p10, p11, false, true),
            find_source(qi, qj, p00, p01, p10, p11, true, false),
            find_source(qi, qj, p00, p01, p10, p11, true, true),
        ) {
            (Some(s00), Some(s01), Some(s10), Some(s11)) => Some(
                PullAction::Perm2 { qi, qj, s00, s01, s10, s11 },
            ),
            _ => None,
        }
    } else if touches.len() == 1 && bt == BranchingType::Branching {
        let qi = touches[0];
        let zeros = BasisIdx64::zeros();
        let ((b00, m00), (b01, m01)) = match defn.push_apply(zeros, z) {
            PushApplyOutput::Branching(first, second) => (first, second),
            _ => {
                return None;
            },
        };
        let ((b10, m10), (b11, m11)) = match defn.push_apply(zeros.set(qi), z) {
            PushApplyOutput::Branching(first, second) => (first, second),
            _ => {
                return None;
            },
        };
        let (c00, n00, c01, n01) = if b00.get(qi) {
            (b01, m01, b00, m00)
        } else {
            (b00, m00, b01, m01)
        };
        let (c10, n10, c11, n11) = if b10.get(qi) {
            (b11, m11, b10, m10)
        } else {
            (b10, m10, b11, m11)
        };
        if !c00.get(qi) && !c10.get(qi) && c01.get(qi) && c11.get(qi) {
            Some(PullAction::Branch1 { qubit: qi, m00: n00, m01: n01, m10: n10, m11: n11 })
        } else {
            None
        }
    } else {
        None
    }
}

/// The gates whose pull action is derived from their push action.
pub open spec fn derives_pull(defn: GateDefn) -> bool {
    defn is CCX || defn is CPhase || defn is CSwap || defn is Swap || defn is FSim || defn is PauliY
        || defn is PauliZ || defn is S || defn is Sdg || defn is T || defn is Tdg || defn is X
}

/// The pull action of every gate.
pub open spec fn pull_action_spec(defn: GateDefn, z: EntryZeros) -> Option<PullAction> {
    if derives_pull(defn) {
        derived_pull_spec(defn, z)
    } else {
        match defn {
            GateDefn::CX { control, target } => Some(PullAction::CX { control, target }),
            GateDefn::CZ { control, target } => Some(PullAction::CZ { control, target }),
            GateDefn::Hadamard(q) => Some(PullAction::Hadamard(q)),
            GateDefn::Phase { rot, target } => Some(PullAction::Phase { rot, target }),
            GateDefn::RX { rot, target } => Some(
                PullAction::Unitary {
                    target,
                    a: Factor::CosHalf(rot),
                    b: Factor::MinusISinHalf(rot),
                    c: Factor::MinusISinHalf(rot),
                    d: Factor::CosHalf(rot),
                    zeros: z,
                },
            ),
            GateDefn::RY { rot, target } => Some(PullAction::RY { rot, target }),
            GateDefn::RZ { rot, target } => Some(PullAction::RZ { rot, target }),
            GateDefn::SqrtX(q) => Some(PullAction::SqrtX(q)),
            GateDefn::SqrtXdg(q) => Some(PullAction::SqrtXdg(q)),
            GateDefn::U { target, theta, phi, lambda } => Some(
                PullAction::Unitary {
                    target,
                    a: Factor::CosHalf(theta),
                    b: Factor::UOffUpper { theta, lambda },
                    c: Factor::UOffLower { theta, phi },
                    d: Factor::ULowerDiag { theta, phi, lambda },
                    zeros: z,
                },
            ),
            _ => None,
        }
    }
}

pub fn create_pull_action(defn: &GateDefn, touches: &Vec<QubitIndex>, z: EntryZeros) -> (r: Option<PullAction>)
    requires
        push_ready(*defn, z),
        touches@ == touches_spec(*defn),
    ensures
        r == pull_action_spec(*defn, z),
{
    match *defn {
        GateDefn::CCX { .. }
        | GateDefn::CPhase { .. }
        | GateDefn::CSwap { .. }
        | GateDefn::Swap { .. }
        | GateDefn::FSim { .. }
        | GateDefn::PauliY(_)
        | GateDefn::PauliZ(_)
        | GateDefn::S(_)
        | GateDefn::Sdg(_)
        | GateDefn::T(_)
        | GateDefn::Tdg(_)
        | GateDefn::X(_) => push_to_pull(defn, touches, z),
        GateDefn::CX { control, target } => Some(PullAction::CX { control, target }),
        GateDefn::CZ { control, target } => Some(PullAction::CZ { control, target }),
        GateDefn::Hadamard(qi) => Some(PullAction::Hadamard(qi)),
        GateDefn::Phase { rot, target } => Some(PullAction::Phase { rot, target }),
        GateDefn::RX { rot, target } => {
            let a = Factor::CosHalf(rot);
            let b = Factor::MinusISinHalf(rot);
            Some(PullAction::Unitary { target, a, b, c: b, d: a, zeros: z })
        },
        GateDefn::RY { rot, target } => Some(PullAction::RY { rot, target }),
        GateDefn::RZ { rot, target } => Some(PullAction::RZ { rot, target }),
        GateDefn::SqrtX(qi) => Some(PullAction::SqrtX(qi)),
        GateDefn::SqrtXdg(qi) => Some(PullAction::SqrtXdg(qi)),
        GateDefn::U { target, theta, phi, lambda } => Some(
            PullAction::Unitary {
                target,
                a: Factor::CosHalf(theta),
                b: Factor::UOffUpper { theta, lambda },
                c: Factor::UOffLower { theta, phi },
                d: Factor::ULowerDiag { theta, phi, lambda },
                zeros: z,
            },
        ),
        GateDefn::Other { .. } => None,
    }
}

} // verus!
