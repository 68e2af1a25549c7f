//! A block-building engine for a proof-of-stake chain with discrete leader
//! slots: searchers submit atomic transaction bundles carrying a tip, the
//! engine runs a sealed-bid auction per slot window, ranks bundles by tip,
//! filters them through a simulation gate, packs the winners into a block
//! under resource limits, and submits the block to validators.

pub mod auction;
pub mod block_assembler;
pub mod bundle;
pub mod encoding;
pub mod platform;
pub mod simulator;
pub mod transaction_pool;
pub mod validator;
pub mod wire;
