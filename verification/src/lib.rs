//! Coordinator logic for a hold-invoice peer-to-peer market: decimal CKB
//! amounts, the order life cycle, the ad book and the decisions that drive
//! the Fiber node.

pub mod text;
pub mod amount;
pub mod outside;
pub mod order;
pub mod keyed;
pub mod market;
pub mod flow;
pub mod payout;
pub mod fiber;
pub mod health;
pub mod laws;
