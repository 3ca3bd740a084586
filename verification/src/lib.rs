//! A single-user secret vault: per-site passwords, sealed at rest behind one
//! master password.
//!
//! A vault has a master key pair. Its private key is kept sealed under a key
//! that scrypt derives from the master password; its public key is kept in
//! the clear. Each site's password is sealed for the master public key by a
//! key pair that is made for that one sealing and then dropped, so that
//! adding a password needs no master password and reading one does.
//!
//! - [`crypto_utils`]: the key derivation.
//! - [`sodium`]: the sealing primitives of sodiumoxide, behind contracts
//!   that are stated and not proved.
//! - [`master_key`]: making the master key pair, sealing and unsealing its
//!   private key.
//! - [`sealing`]: sealing a secret for a public key and opening it.
//! - [`vault`]: key data, sealed site data, the vault, and the operations
//!   on them.
//! - [`error`]: the ways in which an operation can fail, and their messages.
//! - [`io`]: what is made of the lines typed at a prompt.
//! - [`cli`]: the commands, and what a command line asks for.
//!
//! The library reads and writes no file and no terminal: its operations
//! take the values that were read and return the values to write.
//!
//! Every function is verified against its contract, except the few that
//! call scrypt, the random number generators, the sealing primitives and
//! `str::trim`. Those have a doc comment that says what is claimed of the
//! call; the verified functions hold as far as these claims do.

pub mod cli;
pub mod crypto_utils;
pub mod error;
pub mod io;
pub mod master_key;
pub mod sealing;
pub mod sodium;
pub mod vault;
