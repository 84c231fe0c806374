pub mod bits;
pub mod engine;
pub mod error_codes;
pub mod listing;
pub mod logging;
pub mod options;
pub mod protocol;
pub mod reading;
pub mod table;
pub mod text;
pub mod text_laws;
pub mod types;
