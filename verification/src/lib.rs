//! An encrypted credential vault: service/username/password entries are kept
//! in one file, sealed with a key derived from a master passphrase.
//!
//! The library holds the verified core: key derivation and the authenticated
//! encryption envelope, the on-disk byte layout, the credential list with its
//! textual serialization, and the load/mutate/dump lifecycle of the store.
//! Reading and writing the store file, the terminal, and the clipboard are
//! left to the surrounding binary.

pub mod args;
pub mod codec;
pub mod commands;
pub mod crypto;
pub mod envelope;
pub mod io;
pub mod pass;
pub mod repl;
pub mod store;
