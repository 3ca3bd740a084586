//! Sealing a secret for a public key, and opening it with the private key.

use crate::error::VaultError;
use crate::sodium::{
    box_keypair, box_nonce, box_open, box_opened, box_public_key, box_seal, opens_for, KEY_BYTES,
    MAC_BYTES,
};
use crate::vault::{SiteData, SiteDataView};
use vstd::prelude::*;

verus! {

/// `data` opens to `secret` under every private key that belongs to
/// `recipient_public`.
pub open spec fn sealed_for(data: SiteDataView, recipient_public: Seq<u8>, secret: Seq<u8>) -> bool {
    opens_for(
        data.sealed_password,
        data.sealed_password_salt,
        data.pubkey,
        recipient_public,
        secret,
    )
}

/// What opening `data` with a private key gives: the secret, or `None`
/// where the sealed bytes are not authentic for that key.
pub open spec fn opened_secret(data: SiteDataView, recipient_secret: Seq<u8>) -> Option<Seq<u8>> {
    box_opened(data.sealed_password, data.sealed_password_salt, data.pubkey, recipient_secret)
}

/// Seals a secret for a public key, under a key pair and a nonce made for
/// this one sealing. The private half of that pair is dropped on return.
pub fn seal_secret(secret: &[u8], recipient_public: &[u8; 32]) -> (data: SiteData)
    requires
        secret@.len() + MAC_BYTES <= isize::MAX,
    ensures
        data@.sealed_password.len() == secret@.len() + MAC_BYTES,
        sealed_for(data@, recipient_public@, secret@),
{
    let (pubkey, privkey) = box_keypair();
    let salt = box_nonce();
    let sealed_password = box_seal(secret, &salt, recipient_public, &privkey);
    SiteData { pubkey, sealed_password, sealed_password_salt: salt }
}

/// What is made of the outcome of an opening: the opened bytes, whole, or
/// an authentication failure. Nothing in between is handed on.
pub fn authenticated(opened: Option<Vec<u8>>) -> (outcome: Result<Vec<u8>, VaultError>)
    ensures
        match outcome {
            Ok(bytes) => opened == Some(bytes),
            Err(error) => error == VaultError::AuthenticationFailure && opened.is_none(),
        },
{
    match opened {
        Some(bytes) => Ok(bytes),
        None => Err(VaultError::AuthenticationFailure),
    }
}

/// Opens a sealed secret with the recipient's private key, or fails closed.
pub fn open_secret(data: &SiteData, recipient_secret: &[u8; 32]) -> (outcome: Result<
    Vec<u8>,
    VaultError,
>)
    ensures
        match outcome {
            Ok(secret) => opened_secret(data@, recipient_secret@) == Some(secret@),
            Err(error) => error == VaultError::AuthenticationFailure && opened_secret(
                data@,
                recipient_secret@,
            ).is_none(),
        },
        outcome matches Ok(secret) ==> secret@.len() + MAC_BYTES == data@.sealed_password.len(),
{
    authenticated(
        box_open(
            data.sealed_password.as_slice(),
            &data.sealed_password_salt,
            &data.pubkey,
            recipient_secret,
        ),
    )
}

/// A secret sealed for a public key opens, under a private key that belongs
/// to it, to the same bytes.
pub proof fn lemma_sealed_secret_opens(
    data: SiteDataView,
    recipient_public: Seq<u8>,
    recipient_secret: Seq<u8>,
    secret: Seq<u8>,
)
    requires
        sealed_for(data, recipient_public, secret),
        recipient_secret.len() == KEY_BYTES,
        box_public_key(recipient_secret) == recipient_public,
    ensures
        opened_secret(data, recipient_secret) == Some(secret),
{
}

} // verus!
