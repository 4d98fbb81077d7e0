//! On-chain verification script for a user-defined-token metadata cell.
//!
//! The configuration argument of the script is an untrusted byte sequence
//! holding a fixed-layout binary record: one byte of decimal precision, a
//! length-prefixed name, and a length-prefixed symbol. The decoder turns
//! those bytes into a validated triple or a typed failure, with every byte
//! access bounds-checked.

pub mod decode;
pub mod error;
