//! Payment tracking with human confirmation: money amounts, confirmations and their
//! decision lifecycle, recurring payment schedules, and the codecs the storage and
//! chat adapters use.

pub mod domain;
pub mod infra;
mod text;
