use feynsum::basis_idx::BasisIdx64;
use feynsum::gate::{
    create_touches, Angle, BranchingType, EntryZeros, Factor, Gate, GateDefn, GateError,
    PullApplyOutput, PushApplicable, PushApplyOutput,
};
use feynsum::pull::PullAction;

fn angle(x: f64) -> Angle {
    Angle { bits: x.to_bits() }
}

fn push_terms(o: PushApplyOutput) -> Vec<(usize, Factor)> {
    match o {
        PushApplyOutput::Nonbranching(b, m) => vec![(b.as_idx(), m)],
        PushApplyOutput::Branching((b0, m0), (b1, m1)) => vec![(b0.as_idx(), m0), (b1.as_idx(), m1)],
    }
}

fn pull_terms(o: PullApplyOutput) -> Vec<(usize, Factor)> {
    match o {
        PullApplyOutput::Nonbranching(b, m) => vec![(b.as_idx(), m)],
        PullApplyOutput::Branching((b0, m0), (b1, m1)) => vec![(b0.as_idx(), m0), (b1.as_idx(), m1)],
    }
}

fn gate(defn: GateDefn) -> Gate {
    Gate::new(defn, EntryZeros::none()).unwrap()
}

fn push(g: &Gate, x: usize) -> Vec<(usize, Factor)> {
    push_terms(g.push_apply(BasisIdx64::from_idx(x)))
}

fn pull(g: &Gate, y: usize) -> Vec<(usize, Factor)> {
    pull_terms(g.pull_apply(BasisIdx64::from_idx(y)))
}

#[test]
fn touches_follow_field_order() {
    assert_eq!(create_touches(&GateDefn::CCX { control1: 4, control2: 1, target: 2 }), vec![4, 1, 2]);
    assert_eq!(create_touches(&GateDefn::CPhase { control: 3, target: 0, rot: angle(0.1) }), vec![3, 0]);
    assert_eq!(create_touches(&GateDefn::U { target: 5, theta: angle(1.0), phi: angle(0.0), lambda: angle(0.0) }), vec![5]);
    let other = GateDefn::Other { name: "foo".to_string(), params: vec![], args: vec![1, 2] };
    assert_eq!(create_touches(&other), Vec::<usize>::new());
}

#[test]
fn branching_classification() {
    assert_eq!(GateDefn::Hadamard(0).branching_type(), BranchingType::Branching);
    assert_eq!(GateDefn::RY { rot: angle(1.0), target: 0 }.branching_type(), BranchingType::Branching);
    assert_eq!(GateDefn::RX { rot: angle(1.0), target: 0 }.branching_type(), BranchingType::MaybeBranching);
    assert_eq!(GateDefn::CX { control: 0, target: 1 }.branching_type(), BranchingType::Nonbranching);
    assert!(gate(GateDefn::Hadamard(0)).is_branching());
    assert!(gate(GateDefn::FSim { left: 0, right: 1, theta: angle(0.3), phi: angle(0.2) }).is_branching());
    assert!(!gate(GateDefn::T(2)).is_branching());
}

#[test]
fn push_permutation_gates() {
    let x = gate(GateDefn::X(1));
    assert_eq!(push(&x, 0b000), vec![(0b010, Factor::One)]);
    let cx = gate(GateDefn::CX { control: 0, target: 2 });
    assert_eq!(push(&cx, 0b001), vec![(0b101, Factor::One)]);
    assert_eq!(push(&cx, 0b100), vec![(0b100, Factor::One)]);
    let ccx = gate(GateDefn::CCX { control1: 0, control2: 1, target: 2 });
    assert_eq!(push(&ccx, 0b011), vec![(0b111, Factor::One)]);
    assert_eq!(push(&ccx, 0b001), vec![(0b001, Factor::One)]);
    let swap = gate(GateDefn::Swap { target1: 0, target2: 2 });
    assert_eq!(push(&swap, 0b001), vec![(0b100, Factor::One)]);
    let cswap = gate(GateDefn::CSwap { control: 0, target1: 1, target2: 2 });
    assert_eq!(push(&cswap, 0b011), vec![(0b101, Factor::One)]);
    assert_eq!(push(&cswap, 0b010), vec![(0b010, Factor::One)]);
}

#[test]
fn push_phase_gates() {
    let cz = gate(GateDefn::CZ { control: 0, target: 1 });
    assert_eq!(push(&cz, 0b11), vec![(0b11, Factor::MinusOne)]);
    assert_eq!(push(&cz, 0b01), vec![(0b01, Factor::One)]);
    let y = gate(GateDefn::PauliY(0));
    assert_eq!(push(&y, 0), vec![(1, Factor::I)]);
    assert_eq!(push(&y, 1), vec![(0, Factor::MinusI)]);
    assert_eq!(push(&gate(GateDefn::PauliZ(0)), 1), vec![(1, Factor::MinusOne)]);
    assert_eq!(push(&gate(GateDefn::S(0)), 1), vec![(1, Factor::I)]);
    assert_eq!(push(&gate(GateDefn::Sdg(0)), 1), vec![(1, Factor::MinusI)]);
    assert_eq!(push(&gate(GateDefn::T(0)), 1), vec![(1, Factor::EighthTurn)]);
    assert_eq!(push(&gate(GateDefn::Tdg(0)), 1), vec![(1, Factor::MinusEighthTurn)]);
    assert_eq!(push(&gate(GateDefn::Tdg(0)), 0), vec![(0, Factor::One)]);
    let rot = angle(0.7);
    assert_eq!(push(&gate(GateDefn::Phase { rot, target: 0 }), 1), vec![(1, Factor::Cis(rot))]);
    assert_eq!(push(&gate(GateDefn::RZ { rot, target: 0 }), 1), vec![(1, Factor::CisHalf(rot))]);
    assert_eq!(push(&gate(GateDefn::RZ { rot, target: 0 }), 0), vec![(0, Factor::CisMinusHalf(rot))]);
}

#[test]
fn push_branching_gates() {
    let h = gate(GateDefn::Hadamard(1));
    assert_eq!(push(&h, 0b00), vec![(0b00, Factor::RecipSqrt2), (0b10, Factor::RecipSqrt2)]);
    assert_eq!(push(&h, 0b10), vec![(0b00, Factor::RecipSqrt2), (0b10, Factor::MinusRecipSqrt2)]);
    let rot = angle(1.1);
    let ry = gate(GateDefn::RY { rot, target: 0 });
    assert_eq!(push(&ry, 1), vec![(0, Factor::MinusSinHalf(rot)), (1, Factor::CosHalf(rot))]);
    let sx = gate(GateDefn::SqrtX(0));
    assert_eq!(push(&sx, 0), vec![(0, Factor::HalfPlusHalfI), (1, Factor::HalfMinusHalfI)]);
    let sxdg = gate(GateDefn::SqrtXdg(0));
    assert_eq!(push(&sxdg, 0), vec![(0, Factor::HalfMinusHalfI), (1, Factor::HalfPlusHalfI)]);
    let (theta, phi) = (angle(0.4), angle(0.9));
    let fsim = gate(GateDefn::FSim { left: 0, right: 1, theta, phi });
    assert_eq!(push(&fsim, 0b01), vec![(0b10, Factor::MinusISin(theta)), (0b01, Factor::Cos(theta))]);
    assert_eq!(push(&fsim, 0b11), vec![(0b11, Factor::Cis(phi))]);
}

#[test]
fn unitary_gate_branching_follows_zero_entries() {
    let rot = angle(0.5);
    let rx = gate(GateDefn::RX { rot, target: 0 });
    assert_eq!(push(&rx, 0), vec![(0, Factor::CosHalf(rot)), (1, Factor::MinusISinHalf(rot))]);
    let diag = Gate::new(GateDefn::RX { rot, target: 0 }, EntryZeros { a: false, b: true, c: true, d: false }).unwrap();
    assert_eq!(push(&diag, 1), vec![(1, Factor::CosHalf(rot))]);
    let anti = Gate::new(GateDefn::RX { rot, target: 0 }, EntryZeros { a: true, b: false, c: false, d: true }).unwrap();
    assert_eq!(push(&anti, 0), vec![(1, Factor::MinusISinHalf(rot))]);
    assert_eq!(pull(&anti, 1), vec![(0, Factor::MinusISinHalf(rot))]);
}

#[test]
fn gate_errors() {
    let other = GateDefn::Other { name: "ccz".to_string(), params: vec![], args: vec![0, 1, 2] };
    assert_eq!(Gate::new(other, EntryZeros::none()).unwrap_err(), GateError::UnsupportedGate);
    assert_eq!(Gate::new(GateDefn::X(64), EntryZeros::none()).unwrap_err(), GateError::QubitIndexOutOfRange);
    assert_eq!(Gate::new(GateDefn::CX { control: 0, target: 70 }, EntryZeros::none()).unwrap_err(), GateError::QubitIndexOutOfRange);
    let degenerate = EntryZeros { a: true, b: false, c: true, d: false };
    assert_eq!(Gate::new(GateDefn::RX { rot: angle(1.0), target: 0 }, degenerate).unwrap_err(), GateError::NumericDegenerate);
    let u = GateDefn::U { target: 0, theta: angle(1.0), phi: angle(0.0), lambda: angle(0.0) };
    assert_eq!(Gate::new(u, EntryZeros { a: false, b: true, c: false, d: true }).unwrap_err(), GateError::NumericDegenerate);
    // only unitary gates read the zero pattern
    assert!(Gate::new(GateDefn::X(0), degenerate).is_ok());
    assert!(Gate::new(GateDefn::X(63), EntryZeros::none()).is_ok());
}

#[test]
fn derived_pull_actions() {
    assert_eq!(gate(GateDefn::X(2)).pull_action, Some(PullAction::Perm1 { qubit: 2, flips: true, m0: Factor::One, m1: Factor::One }));
    assert_eq!(gate(GateDefn::PauliY(0)).pull_action, Some(PullAction::Perm1 { qubit: 0, flips: true, m0: Factor::I, m1: Factor::MinusI }));
    assert_eq!(gate(GateDefn::T(1)).pull_action, Some(PullAction::Perm1 { qubit: 1, flips: false, m0: Factor::One, m1: Factor::EighthTurn }));
    assert!(matches!(gate(GateDefn::Swap { target1: 0, target2: 1 }).pull_action, Some(PullAction::Perm2 { .. })));
    assert!(matches!(gate(GateDefn::CPhase { control: 0, target: 1, rot: angle(0.2) }).pull_action, Some(PullAction::Perm2 { .. })));
    assert!(gate(GateDefn::CCX { control1: 0, control2: 1, target: 2 }).pull_action.is_none());
    assert!(!gate(GateDefn::CSwap { control: 0, target1: 1, target2: 2 }).is_pullable());
    assert!(!gate(GateDefn::FSim { left: 0, right: 1, theta: angle(0.1), phi: angle(0.1) }).is_pullable());
    assert!(gate(GateDefn::Hadamard(0)).is_pullable());
}

#[test]
fn derived_pull_of_swap_is_swap() {
    let swap = gate(GateDefn::Swap { target1: 0, target2: 2 });
    assert_eq!(pull(&swap, 0b001), vec![(0b100, Factor::One)]);
    assert_eq!(pull(&swap, 0b110), vec![(0b011, Factor::One)]);
    let cphase = gate(GateDefn::CPhase { control: 1, target: 0, rot: angle(0.3) });
    assert_eq!(pull(&cphase, 0b011), vec![(0b011, Factor::Cis(angle(0.3)))]);
    assert_eq!(pull(&cphase, 0b010), vec![(0b010, Factor::One)]);
}

/// For every output label, what push sends there equals what pull reads.
fn assert_dual(g: &Gate, num_qubits: usize) {
    let n = 1usize << num_qubits;
    for y in 0..n {
        let mut from_push: Vec<(usize, Factor)> = Vec::new();
        for x in 0..n {
            for (b, m) in push(g, x) {
                if b == y {
                    from_push.push((x, m));
                }
            }
        }
        let mut from_pull = pull(g, y);
        from_push.sort_by_key(|t| t.0);
        from_pull.sort_by_key(|t| t.0);
        assert_eq!(from_push, from_pull, "gate {:?}, output {}", g.defn, y);
    }
}

#[test]
fn push_pull_duality_on_three_qubits() {
    let rot = angle(0.77);
    let defns = vec![
        GateDefn::CX { control: 2, target: 0 },
        GateDefn::CZ { control: 0, target: 1 },
        GateDefn::CPhase { control: 0, target: 2, rot },
        GateDefn::Swap { target1: 1, target2: 2 },
        GateDefn::Hadamard(1),
        GateDefn::PauliY(2),
        GateDefn::PauliZ(0),
        GateDefn::Phase { rot, target: 1 },
        GateDefn::RX { rot, target: 2 },
        GateDefn::RY { rot, target: 0 },
        GateDefn::RZ { rot, target: 1 },
        GateDefn::S(0),
        GateDefn::Sdg(1),
        GateDefn::SqrtX(2),
        GateDefn::SqrtXdg(0),
        GateDefn::T(1),
        GateDefn::Tdg(2),
        GateDefn::U { target: 1, theta: rot, phi: angle(0.1), lambda: angle(0.2) },
        GateDefn::X(0),
    ];
    for d in defns {
        let g = gate(d);
        assert!(g.is_pullable());
        assert_dual(&g, 3);
    }
}
