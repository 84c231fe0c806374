//! The messages exchanged with the venue.

pub mod chain_laws;
pub mod chain_model;
pub mod chain_record_laws;
pub mod datetime;
pub mod fields;
pub mod ns;
pub mod regulatory_snapshot;
pub mod snapshot_laws;
