//! Reconciliation of locally produced rollup claims against an on-chain
//! history snapshot.
//!
//! The driver in [`blockchain`] drains a claim feed ([`machine::BrokerReceive`]),
//! skips every claim already confirmed for the application address in the
//! supplied [`history::History`] snapshot, and forwards the rest, in feed
//! order, to a linear submission capability ([`tx_sender::TxSender`]).

pub mod blockchain;
pub mod history;
pub mod machine;
pub mod mock;
pub mod primitives;
pub mod tx_sender;
