//! Reconstruction of the economics of a confirmed transaction: which outputs
//! it spent, who was paid, what was returned as change, and what fee was left
//! to the miner, together with the fixed-layout text report of the result.

pub mod accounting;
pub mod ledger;
pub mod model;
pub mod report;
pub mod resolution;
pub mod resolver;
pub mod text;
pub mod wallet;
