//! Orders as the venue is told of them.

pub mod algo_laws;
pub mod algos;
pub mod attr_laws;
pub mod attrs;
pub mod bracket;
pub mod bracket_laws;
pub mod cancel;
pub mod cancel_laws;
pub mod combo_laws;
pub mod conditions;
pub mod drain;
pub mod drain_laws;
pub mod fields;
pub mod identity;
pub mod identity_laws;
pub mod laws;
pub mod leftover;
pub mod merge;
pub mod message_laws;
pub mod replace;
pub mod replace_laws;
pub mod report_laws;
pub mod reports;
pub mod shape;
pub mod submit;
pub mod submit_laws;
pub mod type_laws;
pub mod wire;
