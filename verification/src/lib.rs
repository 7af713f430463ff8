//! A verified transaction exchange.
//!
//! The exchange replays an ordered log of transactions (deposits,
//! withdrawals, and the dispute lifecycle of dispute, resolve and
//! chargeback) against per-client accounts. Every rule is stated over a
//! mathematical model of the ledger and proved of the executable code;
//! the laws that relate several operations stand in [`laws`].

pub mod client;
pub mod exchange;
pub mod laws;
pub mod transaction;
