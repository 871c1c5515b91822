//! File encryption with wallet-based two-factor authentication.
//!
//! A caller proves possession of a wallet's private key by supplying an ECDSA
//! signature over a password digest; the signature and password then seed the
//! symmetric key material for chunked, authenticated stream encryption of an
//! archived file or directory.

pub mod auth;
pub mod errors;
pub mod hashing;
pub mod hexcodec;
pub mod keys;
pub mod paths;
pub mod pipeline;
pub mod stream;
