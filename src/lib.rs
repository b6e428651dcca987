//! Symmetric encryption of UTF-8 text with AES in Infinite Garble Extension
//! (IGE) mode, over a count-based block padding.

pub mod error;
pub mod padding;
pub mod cipher;
