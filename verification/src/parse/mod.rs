//! Line-oriented parsing.
pub mod record;
pub mod wire;
pub mod stream;
pub mod entry;
