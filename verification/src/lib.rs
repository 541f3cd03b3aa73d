//! An encrypted vault for one-time-password secrets and the engine that
//! derives time-based codes from them.
//!
//! - [`crypto`]: key derivation and authenticated encryption.
//! - [`vault`]: the record kept on disk, and a payload's way into and out of it.
//! - [`secrets`]: the registry of named credentials, in memory and in a vault.
//! - [`codec`]: how a registry is written as bytes.
//! - [`totp`]: from a secret and the time to a code and its countdown.
//! - [`auth`]: entries as written down; adding a secret, showing its code.
//! - [`ui`]: the state of the live display of all codes.
//! - [`master`]: the steps by which the master passphrase is obtained.
//! - [`error`]: the failures, and the family of each.
//! - [`bytes`]: small operations on byte strings.
//!
//! The library reads no file, no clock and no key: callers hand it bytes,
//! times and keys, and get back what to write, show or do next.

pub mod auth;
pub mod bytes;
pub mod codec;
pub mod crypto;
pub mod error;
pub mod master;
pub mod secrets;
pub mod totp;
pub mod ui;
pub mod vault;
