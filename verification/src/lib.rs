//! Decoding of 64-bit little-endian ELF objects.
//!
//! [`raw`] reads the on-disk records of an object out of a byte buffer, every
//! read bounds-checked; [`parsed`] turns the numeric codes of those records
//! into enums.
pub mod parsed;
pub mod raw;
