//! The catalogue entry and the presence a user publishes.
pub mod app;
pub mod presence;

pub use app::App;
pub use presence::Presence;
