//! Proof-batching gateway core: admission of signed verification requests,
//! a fee-ordered batch queue, per-sender accounting, batch commitments with
//! Merkle inclusion proofs, and the decisions of the block-driven finalizer.

pub mod hashing;
pub mod merkle;
pub mod types;
pub mod commitment;
pub mod fees;
pub mod batch_queue;
pub mod batch_state;
pub mod messages;
pub mod admission;
pub mod finalizer;
pub mod errors;
pub mod mina;
pub mod sdk;
pub mod task_sender;
pub mod telemetry;
pub mod settlement;
