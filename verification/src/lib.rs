//! A trustless two-party conditional asset exchange.
//!
//! A maker deposits a quantity of asset A into a custody record and names the
//! amount of asset B demanded in return; any taker may later supply that
//! amount to receive the deposit, or the maker may cancel and reclaim it.
//! Custody is programmatic: the holding account is addressed by a
//! deterministic derivation from `(maker, seed)`, so the protocol's own
//! transition rules, not a private key, control the held funds.

pub mod codec;
pub mod derivation;
pub mod errors;
pub mod ledger;
pub mod state;
