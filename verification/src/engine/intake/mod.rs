//! Orders as their callers place them.
//!
//! What happens between taking an order and sending it: the contract a caller
//! described is named, the order is held against what this session placed and
//! what the venue is working, and it is sent, or kept until an order that
//! transmits releases it. An order command waiting on any of that holds up only
//! what depends on it.

pub mod bracket;
pub mod cancels;
pub mod exercise;
pub mod exercising;
pub mod forget;
pub mod framing;
pub mod going_laws;
pub mod kept;
pub mod lap;
pub mod laws;
pub mod naming;
pub mod one;
pub mod order_laws;
pub mod placement;
pub mod placing;
pub mod refuse;
pub mod refuse_laws;
pub mod state;
pub mod take;
pub mod transmit;
pub mod withdraw;
