//! Builder for a crafted Wii message-board attachment: from a hardware (MAC)
//! address, a delivery date and a system-menu version it derives the console
//! identity and key material, lays out a fixed-size binary structure (headers,
//! heap-grooming fill, self-decoding stub, embedded loader, trailing image),
//! and seals it with a CRC, AES-128-CBC encryption and an HMAC-SHA1 tag.

pub mod buffer;
pub mod consts;
pub mod crypto;
pub mod date;
pub mod error;
pub mod payload;
pub mod strings;
pub mod types;
