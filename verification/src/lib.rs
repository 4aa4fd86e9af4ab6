//! A Groth16 zkSNARK proving system, verified with Verus.
//!
//! The crate covers the full proving pipeline: a constraint-system recorder
//! with namespaced allocation and exact rollback, the reduction of a rank-1
//! constraint system to a quadratic arithmetic program, the prover's
//! group-element accumulation, the verifier's pairing check, and canonical
//! byte encodings for keys and proofs.
//!
//! The algebraic primitive layer is instantiated with a small prime scalar
//! field and the symmetric "exponent" pairing configuration over it, in which
//! every group operation is ordinary modular arithmetic. This instantiation
//! satisfies all the algebraic laws the protocol relies on (the groups are
//! cyclic of prime order and the pairing is bilinear and non-degenerate), so
//! the whole pipeline is executable and verifiable end to end. It offers no
//! cryptographic hardness and is meant for checking the protocol logic, not
//! for hiding witnesses from an adversary.

pub mod assignment;
pub mod circuits;
pub mod codec;
pub mod domain;
pub mod field;
pub mod generator;
pub mod group;
pub mod keys;
pub mod msm;
pub mod optional_vec;
pub mod prover;
pub mod qap;
pub mod r1cs;
pub mod verify;
