//! A deterministic ledger-and-voting engine.
//!
//! Participants lock fungible tokens into a shared pool, stake a portion of
//! their locked balance on the outcome of time-boxed vaults (binary yes/no
//! bets), and withdraw unlocked funds once a vault's deposit window closes.
//! Every operation is a pure state transition: it takes the persisted state,
//! the caller's identity and the current block height, and either returns an
//! error leaving the state untouched, or commits a new state.

pub mod contract;
pub mod error;
pub mod laws;
mod lemmas;
pub mod msg;
pub mod state;

pub use error::ContractError;
