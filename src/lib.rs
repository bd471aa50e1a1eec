//! Validation and dispute logic for multi-party payment channels.
pub mod error;
pub mod crypto;
pub mod encoding;
pub mod channel;
pub mod laws;
