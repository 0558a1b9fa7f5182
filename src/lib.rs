//! Gate algebra and gate scheduling for a sparse/dense state-vector simulator.
//!
//! A circuit acts on basis labels (`basis_idx`). Each gate maps a label
//! forward to one or two labels with symbolic multipliers (`gate`), and most
//! gates also map an output label back to its sources (`pull`); `duality`
//! proves that the two views agree. Schedulers (`gate_scheduler` and the
//! modules it names) cut a circuit into kernels without reordering gates
//! that share a qubit. `expansion` decides how a kernel is applied, and
//! `dense_table` and `complex_bits` hold amplitudes as IEEE-754 bit patterns.
//! Evaluating multipliers and adding amplitudes is floating-point work done
//! by the caller.
pub mod basis_idx;
pub mod complex_bits;
pub mod decompose;
pub mod dense_table;
pub mod duality;
pub mod expansion;
pub mod gate;
pub mod gate_scheduler;
pub mod greedy_gate_schedulers;
pub mod naive_gate_scheduler;
pub mod pull;
