//! Per-monitor wallpaper configuration: path resolution, profile storage,
//! monitor reconciliation, player invocation and process lifecycle decisions.
pub mod badge;
pub mod cli;
pub mod config;
pub mod editor;
pub mod events;
pub mod interval;
pub mod invocation;
pub mod lifecycle;
pub mod matching;
pub mod monitors;
pub mod paths;
pub mod reconcile;
pub mod session;
pub mod text;
pub mod theme;
