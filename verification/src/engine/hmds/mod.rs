
pub mod answers;
pub mod laws;
pub mod lost;
pub mod names;
pub mod pages;
pub mod queries;
pub mod replies;
pub mod series;
pub mod streams;
pub mod ticks;
