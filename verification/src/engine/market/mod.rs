//! Market-data requests as their callers make them.
//!
//! A request is served off the subscription its contract already has, or one is
//! asked for, and what is said of it stands ahead of everything that arrives
//! under it. Every request taken is kept, so a withdrawal finds what it
//! withdraws, and the last request on a contract is the one that takes the
//! subscription down.

pub mod laws;
pub mod state;
pub mod take;
pub mod withdraw;
