//! What is sent to Discord over its IPC socket, and how.
pub mod activity;
pub mod assets;
pub mod buttons;
pub mod client;
pub mod timestamps;

pub use activity::Activity;
pub use assets::Assets;
pub use buttons::Button;
pub use client::RpcClient;
pub use timestamps::Timestamps;
