//! A local store of time-based one-time-password settings, one entry per application, kept
//! in a single JSON document that is encrypted at rest.
//!
//! The library holds the logic: the JSON merge that updates the document, the resolution of
//! settings from user input or from a stored object, the choice of the current code, and the
//! transaction that decrypts the store, works on the plaintext, encrypts it again and deletes
//! the plaintext on every path.
pub mod json;
pub mod logger;
pub mod otp;
pub mod settings;
pub mod storage;
pub mod text;
pub mod transaction;
