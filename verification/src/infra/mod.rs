pub mod config;
pub mod discord;
pub mod notifier;
pub mod persistence;
