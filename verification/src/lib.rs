//! Host-side protocol core for a USB-connected audio signal processor.
//!
//! The device is configured through a compact type-length-value (TLV)
//! message protocol.  This crate holds the byte-exact heart of that
//! protocol: the envelope codec, the filter model with its wire records,
//! the configuration aggregate codec, and the fixed command catalog.
//!
//! Every multi-byte wire field is little-endian.  Fractional quantities
//! (cutoff frequencies, quality factors, gains, raw biquad coefficients)
//! travel on the wire as IEEE 754 bit patterns; this crate stores and
//! moves those patterns as plain `u32`/`u64` words, which keeps every
//! encode/decode step exact.  Turning the patterns into numbers — and all
//! numeric filter design work — is left to callers.

pub mod commands;
pub mod config;
pub mod envelope;
pub mod errors;
pub mod filters;
pub mod version;
pub mod wire;
