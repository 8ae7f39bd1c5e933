//! Verified core of a Discord Rich Presence manager: the application
//! catalogue and its matching rules, presences and activities, the IPC frame
//! format, the socket and launch plans, and the configuration state changes.
pub mod config;
pub mod database;
pub mod error;
pub mod models;
pub mod output;
pub mod rpc;
pub mod service;
pub mod text;
pub mod util;

pub use error::Error;
pub use models::{App, Presence};
pub use service::PretendService;
