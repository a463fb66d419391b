//! A ledger of client accounts driven by a stream of transaction records.
//!
//! Records are deposits, withdrawals, disputes, resolves and chargebacks.
//! [`AccountEngine`] applies them one at a time to the [`Client`] each one
//! names and hands out the resulting [`Account`]s on request.
//!
//! Amounts are whole numbers of the smallest unit the ledger distinguishes,
//! so every balance is exact. A record carries its amount in an `i64`; a
//! balance is an `i128`, which is wide enough for every deposit that the
//! `u64` transaction identifiers can ever carry, so no arithmetic here can
//! overflow.
//!
//! What each record does is defined on [`ClientState`], the mathematical
//! state that a client stands for; the executable functions are proved to
//! follow it, and `laws` proves what holds of every run of records.

pub mod account;
pub mod client;
pub mod engine;
pub mod laws;
pub mod record;
pub mod state;
pub mod tally;
pub mod wellformed;

pub use account::{Account, Balances};
pub use client::Client;
pub use engine::AccountEngine;
pub use record::{Tx, TypeTx};
pub use state::{ClientState, ClientTransaction};
