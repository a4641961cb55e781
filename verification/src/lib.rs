//! Recursive proof-composition core for a STARK-based virtual machine.
//!
//! The crate models the pieces that fold many independently proved execution
//! shards into a single proof: the arithmetization interface shared by every
//! chip, a permutation chip for a fixed-width cryptographic round function,
//! an in-circuit duplex-sponge transcript, a recursive shard verifier, and
//! the reduction tree that folds shard proofs while preserving transcript
//! continuity.

pub mod felt;
pub mod perm;
pub mod sponge;
pub mod challenger;
pub mod record;
pub mod chip;
pub mod types;
pub mod root;
pub mod reduce;
