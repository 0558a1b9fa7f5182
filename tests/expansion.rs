use feynsum::expansion::{all_pullable, choose_method, BlockLayout, ExpandMethod};
use feynsum::gate::{EntryZeros, Gate, GateDefn};

#[test]
fn method_follows_thresholds() {
    assert_eq!(choose_method(true, false, true), ExpandMethod::Sparse);
    assert_eq!(choose_method(true, true, true), ExpandMethod::Sparse);
    assert_eq!(choose_method(false, true, true), ExpandMethod::PullDense);
    assert_eq!(choose_method(false, true, false), ExpandMethod::PushDense);
    assert_eq!(choose_method(false, false, true), ExpandMethod::PushDense);
    assert_eq!(ExpandMethod::PullDense.name(), "pull dense");
    assert_eq!(ExpandMethod::Sparse.name(), "push sparse");
    assert_eq!(ExpandMethod::PushDense.name(), "push dense");
}

#[test]
fn pullable_kernels() {
    let gates: Vec<Gate> = vec![GateDefn::Hadamard(0), GateDefn::CCX { control1: 0, control2: 1, target: 2 }, GateDefn::X(1)]
        .into_iter()
        .map(|d| Gate::new(d, EntryZeros::none()).unwrap())
        .collect();
    assert!(all_pullable(&gates, &vec![0, 2]));
    assert!(!all_pullable(&gates, &vec![0, 1, 2]));
    assert!(all_pullable(&gates, &vec![]));
}

#[test]
fn block_layout_sizes() {
    let small = BlockLayout::new(250, 10000);
    assert_eq!((small.block_size, small.num_blocks), (100, 3));
    assert_eq!((small.start(2), small.stop(2)), (200, 250));
    assert_eq!(small.stop(0), 100);
    let large = BlockLayout::new(5_000_000, 10000);
    assert_eq!((large.block_size, large.num_blocks), (5000, 1000));
    let capped = BlockLayout::new(50_000_000, 10000);
    assert_eq!((capped.block_size, capped.num_blocks), (10000, 5000));
    let empty = BlockLayout::new(0, 10000);
    assert_eq!(empty.num_blocks, 0);
    let exact = BlockLayout::new(300, 10000);
    assert_eq!((exact.num_blocks, exact.stop(2)), (3, 300));
}
