//! Verified core of a zero-knowledge cross-chain relay: R1CS building blocks,
//! Groth16 key and proof encodings over BLS12-381, field conversions, and the
//! storage logic of the randomness and proof pallets.

pub mod bytes;
pub mod field;
pub mod curve;
pub mod g1_to_scalar;
pub mod multipack;
pub mod constraint;
pub mod groth16;
pub mod store_type;
pub mod musig;
pub mod randrng;
pub mod recorder;
pub mod proof_circuit;
pub mod zkproof;
