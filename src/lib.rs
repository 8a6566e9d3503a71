//! Integer-level logic of a GPU Gaussian-elimination solver.
//!
//! The numeric work runs on a compute device over IEEE-754 single-precision
//! values. This library holds what the host decides around it: the shape and
//! validity of the augmented matrix (entries kept as their 32-bit patterns),
//! the ordered schedule of dispatches, the handling of backend faults, and the
//! decoding of the read-back buffer.

pub mod bits;
pub mod bytes;
pub mod driver;
pub mod matrix;
pub mod readback;

pub use bytes::le_bytes;
pub use bits::{is_finite_bits, is_zero_bits};
pub use driver::{lemma_pivot_schedule, Action, Fault, PushConstants, SolveDriver, SolveError};
pub use matrix::{AugmentedMatrix, MatrixError, MAX_DIMENSION};
pub use readback::{
    decode_le_words, decode_solution, lemma_decode_encode_round_trip, lemma_read_back_known_words,
    lemma_success_is_finite,
    DecodeError,
};
