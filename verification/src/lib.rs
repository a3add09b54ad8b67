//! Verified core of the subscription switcher: credential validation, store
//! decisions, device-login prompt parsing, limit and reset bookkeeping.
pub mod text;
pub mod clock;
pub mod doc;
pub mod launcher;
pub mod accounts;
pub mod resets;
pub mod usage;
pub mod proxy;
pub mod config;
pub mod notifications;
pub mod ui;
pub mod windows;
pub mod tray;
pub mod activity;
