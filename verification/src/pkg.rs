//! The two container decoders: data packages and index packages.

pub mod data;
pub mod index;
