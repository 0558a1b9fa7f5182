use feynsum::gate::{Angle, GateDefn, GateError};
use feynsum::gate_scheduler::{create_gate_scheduler, AnyGateScheduler, GateScheduler, GateSchedulingPolicy};
use feynsum::greedy_gate_schedulers::{DAGScheduler, GreedyFinishQubitGateScheduler, GreedyNonbranchingGateScheduler};

fn describe(d: &GateDefn) -> String {
    format!("{:?}", d)
}

#[test]
fn ccx_decomposes_into_fifteen_gates() {
    let ccx = GateDefn::CCX { control1: 0, control2: 1, target: 2 };
    let parts = GateDefn::decompose_ccx(&ccx);
    let expected = vec![
        GateDefn::Hadamard(2),
        GateDefn::CX { control: 1, target: 2 },
        GateDefn::Tdg(2),
        GateDefn::CX { control: 0, target: 2 },
        GateDefn::T(2),
        GateDefn::CX { control: 1, target: 2 },
        GateDefn::Tdg(2),
        GateDefn::CX { control: 0, target: 2 },
        GateDefn::T(1),
        GateDefn::T(2),
        GateDefn::Hadamard(2),
        GateDefn::CX { control: 0, target: 1 },
        GateDefn::T(0),
        GateDefn::Tdg(1),
        GateDefn::CX { control: 0, target: 1 },
    ];
    assert_eq!(parts.len(), 15);
    assert_eq!(parts.iter().map(describe).collect::<Vec<_>>(), expected.iter().map(describe).collect::<Vec<_>>());
    assert_eq!(describe(&ccx.decompose_gate()[0]), describe(&GateDefn::Hadamard(2)));
    assert!(GateDefn::decompose_ccx(&GateDefn::X(0)).is_empty());
}

#[test]
fn cswap_decomposes_around_a_toffoli() {
    let cswap = GateDefn::CSwap { control: 0, target1: 1, target2: 2 };
    let parts = GateDefn::decompose_cswap(&cswap);
    assert_eq!(parts.len(), 17);
    assert_eq!(describe(&parts[0]), describe(&GateDefn::CX { control: 1, target: 2 }));
    assert_eq!(describe(&parts[16]), describe(&GateDefn::CX { control: 1, target: 2 }));
    let inner = GateDefn::decompose_ccx(&GateDefn::CCX { control1: 0, control2: 2, target: 1 });
    assert_eq!(parts[1..16].iter().map(describe).collect::<Vec<_>>(), inner.iter().map(describe).collect::<Vec<_>>());
    assert_eq!(cswap.decompose_gate().len(), 17);
    assert!(GateDefn::decompose_cswap(&GateDefn::X(0)).is_empty());
}

#[test]
fn other_gates_decompose_to_themselves() {
    let x = GateDefn::RX { rot: Angle { bits: 1.5f64.to_bits() }, target: 3 };
    let parts = x.decompose_gate();
    assert_eq!(parts.len(), 1);
    assert_eq!(describe(&parts[0]), describe(&x));
    let other = GateDefn::Other { name: "cu1".to_string(), params: vec![Angle { bits: 7 }], args: vec![0, 1] };
    assert_eq!(describe(&other.decompose_gate()[0]), describe(&other));
}

/// H(0); CX(0,1); RZ(2); H(3); CX(2,3); T(4)
fn sample_circuit() -> (Vec<Vec<usize>>, Vec<bool>) {
    (
        vec![vec![0], vec![0, 1], vec![2], vec![3], vec![2, 3], vec![4]],
        vec![true, false, false, true, false, false],
    )
}

fn drain(s: &mut dyn FnMut() -> Vec<usize>) -> Vec<Vec<usize>> {
    let mut kernels = Vec::new();
    loop {
        let k = s();
        if k.is_empty() {
            return kernels;
        }
        kernels.push(k);
    }
}

#[test]
fn greedy_nonbranching_kernels() {
    let (touches, branching) = sample_circuit();
    let mut s = GreedyNonbranchingGateScheduler::new(6, 5, touches, branching);
    let kernels = drain(&mut || s.pick_next_gates());
    assert_eq!(kernels, vec![vec![2, 5, 0, 1, 3], vec![4]]);
}

#[test]
fn greedy_nonbranching_budget_of_two_branching_gates() {
    let touches = vec![vec![0], vec![1], vec![2], vec![0]];
    let branching = vec![true, true, true, false];
    let mut s = GreedyNonbranchingGateScheduler::new(4, 3, touches, branching);
    let kernels = drain(&mut || s.pick_next_gates());
    assert_eq!(kernels, vec![vec![0, 3, 1], vec![2]]);
}

#[test]
fn greedy_finish_qubit_kernels() {
    let (touches, _) = sample_circuit();
    let mut s = GreedyFinishQubitGateScheduler::new(6, 5, touches);
    let kernels = drain(&mut || s.pick_next_gates());
    assert_eq!(kernels, vec![vec![5], vec![0], vec![1], vec![2], vec![3], vec![4]]);
}

#[test]
fn naive_kernels_through_factory() {
    let (touches, branching) = sample_circuit();
    let mut s = create_gate_scheduler(&GateSchedulingPolicy::Naive, 6, 5, touches, branching).unwrap();
    assert!(matches!(s, AnyGateScheduler::Naive(_)));
    let kernels = drain(&mut || s.pick_next_gates());
    assert_eq!(kernels, vec![vec![0], vec![1], vec![2], vec![3], vec![4], vec![5]]);
}

#[test]
fn factory_rejects_qubit_out_of_range() {
    let touches = vec![vec![0], vec![0, 3]];
    let r = create_gate_scheduler(&GateSchedulingPolicy::GreedyNonbranching, 2, 3, touches, vec![false, false]);
    assert_eq!(r.err().map(|e| e == GateError::QubitIndexOutOfRange), Some(true));
}

fn shares_qubit(a: &[usize], b: &[usize]) -> bool {
    a.iter().any(|q| b.contains(q))
}

/// Every policy hands out each gate once, never reordering gates on a qubit.
#[test]
fn every_policy_keeps_dependency_order() {
    let touches = vec![
        vec![0], vec![1, 2], vec![0, 1], vec![3], vec![2], vec![0, 3], vec![1], vec![2, 3], vec![0], vec![3],
    ];
    let branching = vec![true, false, false, true, true, false, true, false, false, true];
    for policy in [GateSchedulingPolicy::Naive, GateSchedulingPolicy::GreedyNonbranching, GateSchedulingPolicy::GreedyFinishQubit] {
        let mut s = create_gate_scheduler(&policy, 10, 4, touches.clone(), branching.clone()).unwrap();
        let order: Vec<usize> = drain(&mut || s.pick_next_gates()).concat();
        let mut sorted = order.clone();
        sorted.sort();
        assert_eq!(sorted, (0..10).collect::<Vec<_>>());
        for i in 0..order.len() {
            for j in i + 1..order.len() {
                if shares_qubit(&touches[order[i]], &touches[order[j]]) {
                    assert!(order[i] < order[j], "{:?}: {:?}", policy, order);
                }
            }
        }
    }
    for informed in [false, true] {
        let mut s = DAGScheduler::new(10, 4, touches.clone(), branching.clone(), informed);
        let order: Vec<usize> = drain(&mut || s.pick_next_gates()).concat();
        let mut sorted = order.clone();
        sorted.sort();
        assert_eq!(sorted, (0..10).collect::<Vec<_>>());
        for i in 0..order.len() {
            for j in i + 1..order.len() {
                if shares_qubit(&touches[order[i]], &touches[order[j]]) {
                    assert!(order[i] < order[j], "informed {}: {:?}", informed, order);
                }
            }
        }
    }
}

#[test]
fn empty_circuit_has_no_kernels() {
    for policy in [GateSchedulingPolicy::Naive, GateSchedulingPolicy::GreedyNonbranching, GateSchedulingPolicy::GreedyFinishQubit] {
        let mut s = create_gate_scheduler(&policy, 0, 3, vec![], vec![]).unwrap();
        assert!(s.pick_next_gates().is_empty());
    }
}

#[test]
fn frontier_schedulers_skip_gates_without_qubits() {
    let touches = vec![vec![], vec![0]];
    let mut s = GreedyNonbranchingGateScheduler::new(2, 1, touches.clone(), vec![false, false]);
    assert_eq!(drain(&mut || s.pick_next_gates()), vec![vec![1]]);
    let mut n = create_gate_scheduler(&GateSchedulingPolicy::Naive, 2, 1, touches, vec![false, false]).unwrap();
    assert_eq!(drain(&mut || n.pick_next_gates()), vec![vec![0], vec![1]]);
}

#[test]
fn policy_names() {
    assert_eq!(GateSchedulingPolicy::parse("naive"), Some(GateSchedulingPolicy::Naive));
    assert_eq!(GateSchedulingPolicy::parse("gnb"), Some(GateSchedulingPolicy::GreedyNonbranching));
    assert_eq!(GateSchedulingPolicy::parse("greedy-nonbranching"), Some(GateSchedulingPolicy::GreedyNonbranching));
    assert_eq!(GateSchedulingPolicy::parse("gfq"), Some(GateSchedulingPolicy::GreedyFinishQubit));
    assert_eq!(GateSchedulingPolicy::parse("greedy"), None);
    assert_eq!("greedy-finish-qubit".parse::<GateSchedulingPolicy>().ok(), Some(GateSchedulingPolicy::GreedyFinishQubit));
    assert_eq!("bogus".parse::<GateSchedulingPolicy>().unwrap_err().name, "bogus");
    assert_eq!(GateSchedulingPolicy::GreedyNonbranching.name(), "greedy-nonbranching");
    assert_eq!(GateSchedulingPolicy::Naive.name(), "naive");
}

#[test]
fn dag_greedy_kernels() {
    let (touches, branching) = sample_circuit();
    let mut s = DAGScheduler::new(6, 5, touches, branching, false);
    let kernels = drain(&mut || s.pick_next_gates());
    assert_eq!(kernels, vec![vec![2, 5, 0, 1, 3], vec![4]]);
}

#[test]
fn dag_informed_kernels() {
    let (touches, branching) = sample_circuit();
    let mut s = DAGScheduler::new(6, 5, touches, branching, true);
    let kernels = drain(&mut || s.pick_next_gates());
    assert_eq!(kernels, vec![vec![2, 0, 3], vec![5, 1, 4]]);
}
