//! A two-party, turn-based tic-tac-toe engine with an embedded escrow.
//!
//! Two participants each commit an equal stake, play to a win or draw, and
//! the engine releases the pooled stake to the winner, or splits it on a
//! draw.  The engine is purely reactive: every state change is the result of
//! one of three operations (create, join, advance), each of which either
//! commits fully or rejects the request with a specific error.

pub mod game;
pub mod ledger;
pub mod engine;
