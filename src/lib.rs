//! Session state and refund settlement for a team-based wagering game.
//!
//! The library keeps the session aggregate (two fixed-size teams, status,
//! combat statistics) and decides, from plain account evidence, which refund
//! transfers a settlement issues. Moving tokens and reading accounts from the
//! ledger is left to the caller.
pub mod error;
pub mod refund;
pub mod state;
