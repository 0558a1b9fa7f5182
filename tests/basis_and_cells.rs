use feynsum::basis_idx::BasisIdx64;
use feynsum::complex_bits::ComplexBits;
use feynsum::dense_table::DenseStateTable;

#[test]
fn basis_zeros_has_no_bit_set() {
    let b = BasisIdx64::zeros();
    for q in 0..64 {
        assert!(!b.get(q));
    }
    assert_eq!(b.as_idx(), 0);
}

#[test]
fn basis_set_unset_flip() {
    let b = BasisIdx64::zeros().set(3).set(0);
    assert_eq!(b.as_idx(), 0b1001);
    assert!(b.get(3) && b.get(0) && !b.get(1));
    assert_eq!(b.unset(3).as_idx(), 1);
    assert_eq!(b.unset(2).as_idx(), 0b1001);
    assert_eq!(b.flip(1).as_idx(), 0b1011);
    assert_eq!(b.flip(0).as_idx(), 0b1000);
    assert_eq!(BasisIdx64::zeros().set(63).bits, 1u64 << 63);
}

#[test]
fn basis_swap_exchanges_bits() {
    let b = BasisIdx64::from_idx(0b0010);
    assert_eq!(b.swap(1, 3).as_idx(), 0b1000);
    assert_eq!(b.swap(3, 1).as_idx(), 0b1000);
    let same = BasisIdx64::from_idx(0b1010);
    assert_eq!(same.swap(1, 3), same);
}

#[test]
fn basis_index_round_trip() {
    for i in [0usize, 1, 5, 1023, 1 << 40] {
        assert_eq!(BasisIdx64::from_idx(i).as_idx(), i);
    }
}

fn bits(re: f64, im: f64) -> ComplexBits {
    ComplexBits { re: re.to_bits(), im: im.to_bits() }
}

#[test]
fn near_zero_threshold() {
    assert!(bits(0.0, 0.0).is_zero());
    assert!(bits(-0.0, 0.0).is_zero());
    assert!(bits(1e-31, -1e-31).is_zero());
    assert!(!bits(1e-30, 0.0).is_zero());
    assert!(!bits(0.0, -2e-30).is_zero());
    assert!(!bits(1e-29, 0.0).is_zero());
    assert!(bits(1e-29, 0.0).is_nonzero());
    assert!(!bits(f64::NAN, 0.0).is_zero());
    assert!(!bits(f64::INFINITY, 0.0).is_zero());
}

#[test]
fn pack_unpack_round_trip() {
    let c = bits(0.25, -3.5);
    let p = c.pack();
    assert_eq!(p as u64, 0.25f64.to_bits());
    assert_eq!((p >> 64) as u64, (-3.5f64).to_bits());
    assert_eq!(ComplexBits::unpack(p), c);
    assert_eq!(ComplexBits::zero().pack(), 0);
}

#[test]
fn dense_table_starts_empty() {
    let t = DenseStateTable::new(3);
    assert_eq!(t.capacity(), 8);
    assert_eq!(t.num_nonzeros(), 0);
    assert_eq!(t.get(&BasisIdx64::from_idx(7)), Some(&ComplexBits::zero()));
    assert_eq!(t.get(&BasisIdx64::from_idx(8)), None);
}

#[test]
fn dense_table_counts_nonzero_cells() {
    let mut t = DenseStateTable::new(2);
    t.array[1] = bits(0.5, 0.0);
    t.array[2] = bits(1e-40, 0.0);
    t.array[3] = bits(0.0, -0.5);
    assert_eq!(t.num_nonzeros(), 2);
    assert_eq!(t.get(&BasisIdx64::from_idx(3)), Some(&bits(0.0, -0.5)));
    assert_eq!(
        t.nonzeros(),
        vec![(BasisIdx64::from_idx(1), bits(0.5, 0.0)), (BasisIdx64::from_idx(3), bits(0.0, -0.5))]
    );
}

#[test]
fn dense_table_without_qubits_has_one_cell() {
    let t = DenseStateTable::new(0);
    assert_eq!(t.capacity(), 1);
    assert!(t.nonzeros().is_empty());
}
