//! Small circuits run end to end on a numeric state vector.
use std::collections::HashMap;
use std::f64::consts::{FRAC_1_SQRT_2, PI};

use feynsum::basis_idx::BasisIdx64;
use feynsum::gate::{Angle, EntryZeros, Factor, Gate, GateDefn, PullApplyOutput, PushApplicable, PushApplyOutput};
use feynsum::gate_scheduler::{create_gate_scheduler, GateScheduler, GateSchedulingPolicy};

type C = (f64, f64);

fn a(x: Angle) -> f64 {
    f64::from_bits(x.bits)
}

fn cis(t: f64) -> C {
    (t.cos(), t.sin())
}

fn scale(k: f64, c: C) -> C {
    (k * c.0, k * c.1)
}

fn mul(x: C, y: C) -> C {
    (x.0 * y.0 - x.1 * y.1, x.0 * y.1 + x.1 * y.0)
}

fn add(x: C, y: C) -> C {
    (x.0 + y.0, x.1 + y.1)
}

fn eval(f: Factor) -> C {
    let r = FRAC_1_SQRT_2;
    match f {
        Factor::One => (1.0, 0.0),
        Factor::MinusOne => (-1.0, 0.0),
        Factor::I => (0.0, 1.0),
        Factor::MinusI => (0.0, -1.0),
        Factor::RecipSqrt2 => (r, 0.0),
        Factor::MinusRecipSqrt2 => (-r, 0.0),
        Factor::HalfPlusHalfI => (0.5, 0.5),
        Factor::HalfMinusHalfI => (0.5, -0.5),
        Factor::EighthTurn => (r, r),
        Factor::MinusEighthTurn => (r, -r),
        Factor::Cis(t) => cis(a(t)),
        Factor::CisHalf(t) => cis(a(t) / 2.0),
        Factor::CisMinusHalf(t) => cis(-a(t) / 2.0),
        Factor::CosHalf(t) => ((a(t) / 2.0).cos(), 0.0),
        Factor::SinHalf(t) => ((a(t) / 2.0).sin(), 0.0),
        Factor::MinusSinHalf(t) => (-(a(t) / 2.0).sin(), 0.0),
        Factor::MinusISinHalf(t) => (0.0, -(a(t) / 2.0).sin()),
        Factor::Cos(t) => (a(t).cos(), 0.0),
        Factor::MinusISin(t) => (0.0, -a(t).sin()),
        Factor::UOffUpper { theta, lambda } => scale(-(a(theta) / 2.0).sin(), cis(a(lambda))),
        Factor::UOffLower { theta, phi } => scale((a(theta) / 2.0).sin(), cis(a(phi))),
        Factor::ULowerDiag { theta, phi, lambda } => scale((a(theta) / 2.0).cos(), cis(a(phi) + a(lambda))),
    }
}

fn is_small(c: C) -> bool {
    c.0.abs() < 1e-30 && c.1.abs() < 1e-30
}

fn ang(x: f64) -> Angle {
    Angle { bits: x.to_bits() }
}

/// Which entries of an `RX` or `U` unitary are near zero.
fn zeros_of(d: &GateDefn) -> EntryZeros {
    let (ea, eb, ec, ed) = match d {
        GateDefn::RX { rot, .. } => {
            let c = ((a(*rot) / 2.0).cos(), 0.0);
            let s = (0.0, -(a(*rot) / 2.0).sin());
            (c, s, s, c)
        }
        GateDefn::U { theta, phi, lambda, .. } => (
            eval(Factor::CosHalf(*theta)),
            eval(Factor::UOffUpper { theta: *theta, lambda: *lambda }),
            eval(Factor::UOffLower { theta: *theta, phi: *phi }),
            eval(Factor::ULowerDiag { theta: *theta, phi: *phi, lambda: *lambda }),
        ),
        _ => return EntryZeros::none(),
    };
    EntryZeros { a: is_small(ea), b: is_small(eb), c: is_small(ec), d: is_small(ed) }
}

fn build(defns: Vec<GateDefn>) -> Vec<Gate> {
    defns
        .into_iter()
        .map(|d| {
            let z = zeros_of(&d);
            Gate::new(d, z).unwrap()
        })
        .collect()
}

fn push_rec(gates: &[&Gate], b: BasisIdx64, w: C, out: &mut HashMap<usize, C>) {
    if is_small(w) {
        return;
    }
    if gates.is_empty() {
        let e = out.entry(b.as_idx()).or_insert((0.0, 0.0));
        *e = add(*e, w);
        return;
    }
    match gates[0].push_apply(b) {
        PushApplyOutput::Nonbranching(nb, m) => push_rec(&gates[1..], nb, mul(eval(m), w), out),
        PushApplyOutput::Branching((b0, m0), (b1, m1)) => {
            push_rec(&gates[1..], b0, mul(eval(m0), w), out);
            push_rec(&gates[1..], b1, mul(eval(m1), w), out);
        }
    }
}

fn pull_rec(gates: &[&Gate], b: BasisIdx64, prev: &[C]) -> C {
    if gates.is_empty() {
        return prev[b.as_idx()];
    }
    match gates[0].pull_apply(b) {
        PullApplyOutput::Nonbranching(n, m) => mul(eval(m), pull_rec(&gates[1..], n, prev)),
        PullApplyOutput::Branching((n0, m0), (n1, m1)) => add(
            mul(eval(m0), pull_rec(&gates[1..], n0, prev)),
            mul(eval(m1), pull_rec(&gates[1..], n1, prev)),
        ),
    }
}

#[derive(Clone, Copy, PartialEq)]
enum Method {
    Sparse,
    PushDense,
    PullDense,
}

/// Runs the circuit kernel by kernel from `initial` (a basis index); returns
/// the dense end state and checks the norm after every kernel.
fn run(num_qubits: usize, defns: Vec<GateDefn>, initial: usize, policy: GateSchedulingPolicy, method: Method) -> Vec<C> {
    let gates = build(defns);
    let touches: Vec<Vec<usize>> = gates.iter().map(|g| g.touches.clone()).collect();
    let branching: Vec<bool> = gates.iter().map(|g| g.is_branching()).collect();
    let mut sched = create_gate_scheduler(&policy, gates.len(), num_qubits, touches, branching).unwrap();
    let n = 1usize << num_qubits;
    let mut state = vec![(0.0, 0.0); n];
    state[initial] = (1.0, 0.0);
    loop {
        let kernel = sched.pick_next_gates();
        if kernel.is_empty() {
            break;
        }
        let ks: Vec<&Gate> = kernel.iter().map(|&i| &gates[i]).collect();
        let all_pullable = ks.iter().all(|g| g.is_pullable());
        state = if method == Method::PullDense && all_pullable {
            (0..n).map(|y| pull_rec(&ks, BasisIdx64::from_idx(y), &state)).collect()
        } else {
            let mut out = HashMap::new();
            for (x, w) in state.iter().enumerate() {
                push_rec(&ks, BasisIdx64::from_idx(x), *w, &mut out);
            }
            let mut next = vec![(0.0, 0.0); n];
            for (k, v) in out {
                next[k] = v;
            }
            next
        };
        let norm: f64 = state.iter().map(|c| c.0 * c.0 + c.1 * c.1).sum();
        assert!((norm - 1.0).abs() < 1e-9, "norm {}", norm);
    }
    state
}

fn assert_close(x: C, y: C, tol: f64) {
    assert!((x.0 - y.0).abs() < tol && (x.1 - y.1).abs() < tol, "{:?} vs {:?}", x, y);
}

fn nonzeros(state: &[C]) -> usize {
    state.iter().filter(|c| !is_small(**c)).count()
}

#[test]
fn bell_pair() {
    let s = run(2, vec![GateDefn::Hadamard(0), GateDefn::CX { control: 0, target: 1 }], 0, GateSchedulingPolicy::GreedyNonbranching, Method::Sparse);
    assert_close(s[0b00], (FRAC_1_SQRT_2, 0.0), 1e-12);
    assert_close(s[0b11], (FRAC_1_SQRT_2, 0.0), 1e-12);
    assert_close(s[0b01], (0.0, 0.0), 1e-12);
    assert_close(s[0b10], (0.0, 0.0), 1e-12);
}

#[test]
fn ghz_three() {
    let defns = vec![GateDefn::Hadamard(0), GateDefn::CX { control: 0, target: 1 }, GateDefn::CX { control: 1, target: 2 }];
    let s = run(3, defns, 0, GateSchedulingPolicy::Naive, Method::PushDense);
    assert_close(s[0b000], (FRAC_1_SQRT_2, 0.0), 1e-12);
    assert_close(s[0b111], (FRAC_1_SQRT_2, 0.0), 1e-12);
    assert_eq!(nonzeros(&s), 2);
}

#[test]
fn toffoli_sets_target() {
    let s = run(3, vec![GateDefn::CCX { control1: 0, control2: 1, target: 2 }], 0b011, GateSchedulingPolicy::GreedyNonbranching, Method::Sparse);
    assert_close(s[0b111], (1.0, 0.0), 1e-12);
    assert_eq!(nonzeros(&s), 1);
}

#[test]
fn hadamard_uniform() {
    let defns = (0..4).map(GateDefn::Hadamard).collect();
    let s = run(4, defns, 0, GateSchedulingPolicy::GreedyNonbranching, Method::PullDense);
    for c in &s {
        assert_close(*c, (0.25, 0.0), 1e-12);
    }
    assert_eq!(nonzeros(&s), 16);
}

#[test]
fn rotation_identity() {
    let defns = vec![GateDefn::RX { rot: ang(PI), target: 0 }, GateDefn::RX { rot: ang(-PI), target: 0 }];
    for method in [Method::Sparse, Method::PullDense] {
        let s = run(1, defns.clone(), 0, GateSchedulingPolicy::Naive, method);
        assert_close(s[0], (1.0, 0.0), 1e-12);
        assert_close(s[1], (0.0, 0.0), 1e-12);
    }
}

fn five_qubit_circuit() -> Vec<GateDefn> {
    vec![
        GateDefn::Hadamard(0),
        GateDefn::CX { control: 0, target: 1 },
        GateDefn::RZ { rot: ang(0.7), target: 2 },
        GateDefn::Hadamard(3),
        GateDefn::CX { control: 2, target: 3 },
        GateDefn::T(4),
    ]
}

/// Pull walks a kernel from its first gate to its last, which reverses the
/// kernel; with one gate per kernel it must agree with push.
#[test]
fn pull_agrees_with_push() {
    let pushed = run(5, five_qubit_circuit(), 0b10100, GateSchedulingPolicy::Naive, Method::PushDense);
    let pulled = run(5, five_qubit_circuit(), 0b10100, GateSchedulingPolicy::Naive, Method::PullDense);
    for (x, y) in pushed.iter().zip(pulled.iter()) {
        assert_close(*x, *y, 1e-10);
    }
    let from_zero = run(5, five_qubit_circuit(), 0, GateSchedulingPolicy::Naive, Method::PullDense);
    assert_close(from_zero[0], (0.5 * (0.35f64).cos(), -0.5 * (0.35f64).sin()), 1e-12);
}

fn mixed_circuit() -> Vec<GateDefn> {
    vec![
        GateDefn::Hadamard(0),
        GateDefn::SqrtX(1),
        GateDefn::RY { rot: ang(0.4), target: 2 },
        GateDefn::CPhase { control: 0, target: 2, rot: ang(1.3) },
        GateDefn::Swap { target1: 1, target2: 3 },
        GateDefn::FSim { left: 2, right: 3, theta: ang(0.6), phi: ang(0.2) },
        GateDefn::U { target: 1, theta: ang(0.9), phi: ang(0.3), lambda: ang(-0.5) },
        GateDefn::CSwap { control: 0, target1: 1, target2: 2 },
        GateDefn::PauliY(3),
        GateDefn::SqrtXdg(0),
        GateDefn::CZ { control: 1, target: 3 },
        GateDefn::Sdg(2),
        GateDefn::Tdg(1),
    ]
}

#[test]
fn representation_independence() {
    let sparse = run(4, mixed_circuit(), 0, GateSchedulingPolicy::GreedyNonbranching, Method::Sparse);
    let dense = run(4, mixed_circuit(), 0, GateSchedulingPolicy::GreedyNonbranching, Method::PushDense);
    let naive = run(4, mixed_circuit(), 0, GateSchedulingPolicy::Naive, Method::PullDense);
    for i in 0..16 {
        assert_close(sparse[i], dense[i], 1e-10 * 4.0);
        assert_close(sparse[i], naive[i], 1e-10 * 4.0);
    }
}

#[test]
fn pruning_before_or_after_agrees() {
    // a component far below the threshold survives neither way
    let defns = vec![GateDefn::RY { rot: ang(1e-40), target: 0 }, GateDefn::Hadamard(1)];
    let s = run(2, defns.clone(), 0, GateSchedulingPolicy::Naive, Method::Sparse);
    let t = run(2, defns, 0, GateSchedulingPolicy::Naive, Method::PullDense);
    for i in 0..4 {
        assert_close(s[i], t[i], 1e-30 * 4.0);
    }
}

fn decomposed(defns: Vec<GateDefn>) -> Vec<GateDefn> {
    defns.iter().flat_map(|d| d.decompose_gate()).collect()
}

fn assert_same_states(num_qubits: usize, circuit: Vec<GateDefn>) {
    for initial in 0..(1usize << num_qubits) {
        let native = run(num_qubits, circuit.clone(), initial, GateSchedulingPolicy::Naive, Method::Sparse);
        let split = run(num_qubits, decomposed(circuit.clone()), initial, GateSchedulingPolicy::Naive, Method::Sparse);
        for i in 0..native.len() {
            assert_close(native[i], split[i], 1e-10);
        }
    }
}

#[test]
fn decomposed_toffoli_agrees_on_every_basis_state() {
    assert_same_states(3, vec![GateDefn::CCX { control1: 0, control2: 1, target: 2 }]);
    assert_same_states(3, vec![GateDefn::CCX { control1: 2, control2: 0, target: 1 }]);
}

#[test]
fn decomposed_toffoli_agrees_on_superpositions() {
    let circuit = vec![
        GateDefn::Hadamard(0),
        GateDefn::Hadamard(1),
        GateDefn::RY { rot: ang(0.8), target: 2 },
        GateDefn::CCX { control1: 0, control2: 1, target: 2 },
        GateDefn::T(1),
    ];
    assert_same_states(3, circuit);
}

#[test]
fn decomposed_cswap_agrees_on_every_basis_state() {
    assert_same_states(3, vec![GateDefn::CSwap { control: 0, target1: 1, target2: 2 }]);
    assert_same_states(4, vec![GateDefn::Hadamard(3), GateDefn::CSwap { control: 3, target1: 2, target2: 0 }]);
}
