//! An escrow-backed duel between two parties.
//!
//! Two participants each stake the same entrance fee and send a soldier into the
//! fight. The engine keeps one game per initiating identity, decides the winner
//! from the soldiers' defense values and one random draw, and reports the payout
//! of the pooled stake. Custody of value, caller identity and durable storage
//! belong to the host that drives the engine.

pub mod address;
pub mod amount;
pub mod contract;
pub mod game;
pub mod laws;
mod random;
pub mod soldier;

pub use address::Address;
pub use amount::Amount;
pub use contract::EscrowFightContract;
pub use game::{FightError, Game, Payout};
pub use soldier::Soldier;
