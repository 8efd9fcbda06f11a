//! A prover for circuits that only expose their public input, together with
//! the transcript, verifier index and lookup-table pieces it is built from.

pub mod commitment;
pub mod curve;
pub mod domain;
pub mod evaluations;
pub mod field;
pub mod lookup;
pub mod oracles;
pub mod permutation;
pub mod polynomial;
pub mod prover;
pub mod scalar_challenge;
pub mod sponge;
pub mod verification;
pub mod verifier_index;
