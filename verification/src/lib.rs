//! Verified core of the precached process monitor and pre-caching daemon.

pub mod counts;
pub mod hashing;
pub mod clock;
pub mod i18n;
pub mod iotrace;
pub mod constants;
pub mod events;
pub mod hot_apps;
pub mod inotify;
pub mod process_tracker;
pub mod prefetch;
pub mod tracer;
pub mod config;
pub mod value_range;
pub mod status;
pub mod ipc;
pub mod hooks;
pub mod lex;
pub mod path_order;
pub mod trace_filter;
pub mod trace_report;
pub mod batch;
pub mod top;
pub mod analyze;
pub mod daemon;
pub mod dbus;
pub mod cli;
