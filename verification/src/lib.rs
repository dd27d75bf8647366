//! A two-phase escrow for wagers: a stake is locked into a pooled vault under a
//! single-use pending record, and the record is later settled once, paying out
//! of the vault what the game's rule allows.
//!
//! Every handler takes the accounts of one request as plain values, decides,
//! and leaves either the accounts as they are after the request or, where it
//! refuses, exactly as they were. The store hands each handler the accounts
//! whose identities it has derived from the request; the handlers neither open
//! nor look up accounts.
//!
//! - `pubkey`, `ledger`, `codec`: identities, balances and their transfer,
//!   little-endian encodings.
//! - `rules`: the deterministic rules of the games.
//! - `batch`, `pda`: what is read out of the host's batch of operations, and
//!   the address derived for a program's vault.
//! - `coinflip`, `mines`, `plinko`, `crash_program`: one game each, staked from
//!   the player's wallet.
//! - `dice`, `dicemines`, `allgame`: games staked from per-player vaults.

pub mod pubkey;
pub mod ledger;
pub mod codec;
pub mod rules;
pub mod batch;
pub mod pda;
pub mod coinflip;
pub mod mines;
pub mod plinko;
pub mod crash_program;
pub mod dice;
pub mod dicemines;
pub mod allgame;
