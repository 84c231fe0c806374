//! What an option calculation decides before any figure is worked out.
//!
//! Which dividends count, which method prices an option, and where a strike
//! falls among the nodes of a tree. Figures are held as the bits of their
//! binary form.

pub mod laws;
pub mod method;
pub mod nodes;
pub mod schedule;
