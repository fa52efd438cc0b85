//! Consensus-critical pre-block and post-block state adjustments for a
//! deterministic block-execution engine.
//!
//! The crate covers three rules:
//! - crediting block-production rewards to a beneficiary and its ommers,
//! - crediting validator withdrawals once the enabling hardfork is active,
//! - running the mandatory pre-block system call that publishes the parent
//!   beacon root, once the later hardfork is active.
//!
//! Every node must compute identical results from identical inputs, so each
//! public function carries a contract that pins its result down exactly.

pub mod beacon;
pub mod evm;
pub mod increments;
pub mod laws;
pub mod post_block;
pub mod primitives;
pub mod rewards;
pub mod withdrawals;
