//! The application catalogue, its search and the record of recent use.
pub mod apps;
pub mod cache;
pub mod search;

pub use apps::AppDatabase;
pub use cache::CacheStore;
pub use search::SearchResult;
