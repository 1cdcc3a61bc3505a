//! Payment settlement between two parties: fee computation, escrow holds,
//! dispute resolution, loyalty rewards and the orchestration that ties them
//! together. Every component is a plain value whose transitions carry
//! machine-checked contracts.

pub mod address;
pub mod dispute;
pub mod escrow;
pub mod fees;
pub mod loyalty;
pub mod orchestrator;
pub mod processor;
pub mod table;
