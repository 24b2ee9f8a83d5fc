//! Runtime descriptions of formatting parameters.

pub mod v1;
