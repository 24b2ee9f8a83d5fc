//! Formatting and panic support for a small embedded core library.

pub mod fmt;
pub mod panicking;
