//! A zero-knowledge circuit for the Hamming distance of two 8-bit vectors:
//! its columns, selectors and gates, the witness assigner, the binding of the
//! distance to the public input, an evaluator of the constraints, and the state
//! of the input shell.
use vstd::prelude::*;

pub mod circuit;
pub mod field;
pub mod prover;
pub mod shell;
pub mod text;
