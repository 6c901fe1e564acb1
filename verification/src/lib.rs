//! Paloma's verified core.

pub mod app;
pub mod audio;
pub mod config;
pub mod format;
pub mod models;
pub mod tdlib;
pub mod text;
pub mod ui;
