//! The Telegram side: plain values for what TDLib reports, and the state
//! machines that decide how to answer it.

pub mod auth;
pub mod check;
pub mod client;
pub mod files;
pub mod types;
