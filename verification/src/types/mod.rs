//! The values the library works on.

pub mod attrs;
pub mod contract;
pub mod kinds;
pub mod orders;
