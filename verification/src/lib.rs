pub mod caps;
pub mod config;
pub mod engine;
pub mod events;
pub mod history;
pub mod router;
pub mod toggle;
