//! Reversible byte masking with a repeating mask, a hexadecimal text codec,
//! and random byte sequences for keys and fixtures.

pub mod hex;
pub mod mask;
pub mod random;

pub use hex::{from_hexdec_string, to_hexdec_string};
pub use mask::{shift_bytes, unshift_bytes, MaskError};
pub use random::{generate_code, generate_long_random_u8};
