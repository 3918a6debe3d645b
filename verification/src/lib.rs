//! A deterministic, single-seed Taproot wallet engine.
//!
//! The crate derives spending keys from one secret seed, keeps the book of the
//! addresses it has issued, picks unspent outputs to fund a payment, and builds,
//! signs, finalises and checks a Taproot key-path transaction. Storage and the
//! chain backend stay outside: the functions here work on plain values that a
//! caller loads and saves.
pub mod error;
pub mod types;
pub mod primitives;
pub mod bytes;
pub mod text;
pub mod keys;
pub mod addresses;
pub mod wallet;
pub mod selection;
pub mod signing;
pub mod finalizer;
pub mod send;
