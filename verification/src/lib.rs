//! An escrow auction with a single bidding period at a time.
//!
//! An administrator opens a bidding period, participants deposit funds as
//! bids, and an administrator closes the period by naming the accepted
//! bidders. Closing refunds every other bidder and forwards the accepted
//! amounts to a withdrawal address. Every handler is a verified function from
//! the persisted [`state::State`] and a command to the next state and the
//! transfers the host has to carry out.

pub mod admins;
pub mod contract;
pub mod error;
pub mod helpers;
pub mod host;
pub mod laws;
pub mod ledger;
pub mod msg;
pub mod payment;
pub mod settlement;
pub mod state;
pub mod text;
