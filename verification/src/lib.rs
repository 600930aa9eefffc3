//! Key and password generation for a hardware key-ceremony tool.
//!
//! The library holds the verified logic: the generator types and their
//! limits, the generators themselves (driven by a finite supply of raw
//! TRNG words), the hex and base64 encoders, the key-handling state machine
//! and the text layout used by the screens.

pub mod encoding;
pub mod generators;
pub mod rng;
pub mod storage;
pub mod app;
pub mod ui;
