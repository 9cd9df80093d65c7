//! What the program decides around its filters: which of them run and with what settings,
//! in what order data is taken in, which depths are passed on, and what is shown.
pub mod hashing;
pub mod priors;
pub mod schedule;
pub mod setup;
pub mod vis;
