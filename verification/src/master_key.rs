//! The master key pair: made once, its private key sealed under a key
//! derived from the master password and never kept in the clear.

use crate::error::VaultError;
use crate::sealing::authenticated;
use crate::sodium::{
    box_keypair, box_public_key, secretbox_nonce, secretbox_open, secretbox_opened,
    secretbox_seal, KEY_BYTES, MAC_BYTES,
};
use vstd::prelude::*;

verus! {

/// A fresh master key pair, public key first.
pub fn generate_master_keypair() -> (pair: ([u8; 32], [u8; 32]))
    ensures
        pair.0@ == box_public_key(pair.1@),
{
    box_keypair()
}

/// What unsealing gives: the private key, if the sealed bytes are authentic
/// under `key` and `nonce` and hold 32 bytes.
pub open spec fn unsealed_master_key(sealed: Seq<u8>, nonce: Seq<u8>, key: Seq<u8>) -> Option<
    Seq<u8>,
> {
    match secretbox_opened(sealed, nonce, key) {
        Some(private) => if private.len() == KEY_BYTES {
            Some(private)
        } else {
            None
        },
        None => None,
    }
}

/// Seals the master private key under a derived key and a fresh nonce.
/// Returns the sealed key and the nonce.
pub fn seal_master_key(privkey: &[u8; 32], derived_key: &[u8; 32]) -> (sealed: (Vec<u8>, [u8; 24]))
    ensures
        sealed.0@.len() == KEY_BYTES + MAC_BYTES,
        unsealed_master_key(sealed.0@, sealed.1@, derived_key@) == Some(privkey@),
{
    let nonce = secretbox_nonce();
    let sealed_key = secretbox_seal(privkey.as_slice(), &nonce, derived_key);
    (sealed_key, nonce)
}

/// The private key that opened bytes are: all 32 of them. Bytes of
/// another length are no key, and count as not authentic.
pub fn private_key_from(opened: Option<Vec<u8>>) -> (outcome: Result<[u8; 32], VaultError>)
    ensures
        match outcome {
            Ok(privkey) => opened matches Some(bytes) && bytes@.len() == KEY_BYTES && bytes@
                == privkey@,
            Err(error) => error == VaultError::AuthenticationFailure && (opened matches Some(bytes)
                ==> bytes@.len() != KEY_BYTES),
        },
{
    let bytes = match authenticated(opened) {
        Ok(bytes) => bytes,
        Err(error) => {
            return Err(error);
        },
    };
    if bytes.len() != KEY_BYTES {
        return Err(VaultError::AuthenticationFailure);
    }
    let mut privkey = [0u8; 32];
    let mut at: usize = 0;
    while at < KEY_BYTES
        invariant
            at <= KEY_BYTES,
            bytes@.len() == KEY_BYTES,
            forall|i: int| 0 <= i < at ==> privkey@[i] == bytes@[i],
        decreases KEY_BYTES - at,
    {
        privkey[at] = bytes[at];
        at += 1;
    }
    assert(privkey@ =~= bytes@);
    Ok(privkey)
}

/// Recovers the master private key from its sealed form, or fails closed.
pub fn unseal_master_key(sealed: &[u8], nonce: &[u8; 24], derived_key: &[u8; 32]) -> (outcome:
    Result<[u8; 32], VaultError>)
    ensures
        match outcome {
            Ok(privkey) => unsealed_master_key(sealed@, nonce@, derived_key@) == Some(privkey@),
            Err(error) => error == VaultError::AuthenticationFailure && unsealed_master_key(
                sealed@,
                nonce@,
                derived_key@,
            ).is_none(),
        },
        sealed@.len() != KEY_BYTES + MAC_BYTES ==> outcome.is_err(),
{
    private_key_from(secretbox_open(sealed, nonce, derived_key))
}

} // verus!
