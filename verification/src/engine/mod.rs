//! The engine: orders and market data between a caller and the venue.

pub mod book;
pub mod commands;
pub mod context;
pub mod hmds;
pub mod intake;
pub mod known;
pub mod market;
pub mod order_builder;
