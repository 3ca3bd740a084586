//! The sealing primitives, as sodiumoxide provides them.
//!
//! Nothing in this module is proved. Each function hands its arguments to one
//! function of sodiumoxide, and its contract records what that function is
//! documented to do. The rest of the crate is verified against these contracts.

use sodiumoxide::crypto::box_;
use sodiumoxide::crypto::secretbox;
use vstd::prelude::*;

verus! {

/// Bytes in a public key, a private key and a symmetric key.
pub const KEY_BYTES: usize = 32;

/// Bytes by which a sealed message is longer than the message: the authentication tag.
pub const MAC_BYTES: usize = 16;

/// The public key that belongs to a private key of `box_`: what
/// `box_::SecretKey::public_key` computes from the private key's 32 bytes.
pub uninterp spec fn box_public_key(secret_key: Seq<u8>) -> Seq<u8>;

/// What `box_::open` makes of a sealed message, a nonce, the sender's public
/// key and the recipient's private key: the message, or `None` where it
/// refuses the sealed bytes.
pub uninterp spec fn box_opened(
    sealed: Seq<u8>,
    nonce: Seq<u8>,
    sender_public: Seq<u8>,
    recipient_secret: Seq<u8>,
) -> Option<Seq<u8>>;

/// What `secretbox::open` makes of a sealed message, a nonce and a key: the
/// message, or `None` where it refuses the sealed bytes.
pub uninterp spec fn secretbox_opened(sealed: Seq<u8>, nonce: Seq<u8>, key: Seq<u8>) -> Option<
    Seq<u8>,
>;

/// `sealed` opens to `message` under every private key whose public key is
/// `recipient_public`, when the sender's public key is `sender_public`.
pub open spec fn opens_for(
    sealed: Seq<u8>,
    nonce: Seq<u8>,
    sender_public: Seq<u8>,
    recipient_public: Seq<u8>,
    message: Seq<u8>,
) -> bool {
    forall|recipient_secret: Seq<u8>|
        recipient_secret.len() == KEY_BYTES && #[trigger] box_public_key(recipient_secret)
            == recipient_public ==> box_opened(sealed, nonce, sender_public, recipient_secret)
            == Some(message)
}

/// Calls `box_::gen_keypair`: a fresh key pair, public key first.
///
/// Claimed: the public key is the one that belongs to the private key; it
/// is computed from the private key as `box_::SecretKey::public_key`
/// computes it. The private key itself is random, and nothing is claimed of
/// it.
#[verifier::external_body]
pub(crate) fn box_keypair() -> (pair: ([u8; 32], [u8; 32]))
    ensures
        pair.0@ == box_public_key(pair.1@),
{
    let (public, secret) = box_::gen_keypair();
    (public.0, secret.0)
}

/// Calls `box_::gen_nonce`: 24 random bytes. Nothing is claimed of them.
#[verifier::external_body]
pub(crate) fn box_nonce() -> (nonce: [u8; 24]) {
    box_::gen_nonce().0
}

/// Calls `box_::seal` with the recipient's public key and the sender's private key.
///
/// Claimed: the result is the message's length and an authentication tag
/// long, and `box_::open` gives the message back from it when it is handed
/// the same nonce, the sender's public key and a private key that belongs to
/// `recipient_public`. Nothing is claimed where `recipient_public` belongs to
/// no private key.
#[verifier::external_body]
pub(crate) fn box_seal(
    message: &[u8],
    nonce: &[u8; 24],
    recipient_public: &[u8; 32],
    sender_secret: &[u8; 32],
) -> (sealed: Vec<u8>)
    requires
        message@.len() + MAC_BYTES <= isize::MAX,
    ensures
        sealed@.len() == message@.len() + MAC_BYTES,
        opens_for(
            sealed@,
            nonce@,
            box_public_key(sender_secret@),
            recipient_public@,
            message@,
        ),
{
    box_::seal(
        message,
        &box_::Nonce(*nonce),
        &box_::PublicKey(*recipient_public),
        &box_::SecretKey(*sender_secret),
    )
}

/// Calls `box_::open` with the sender's public key and the recipient's private key.
///
/// Claimed: the result depends on the four arguments alone, and an opened
/// message is an authentication tag shorter than the sealed bytes. The
/// error of `box_::open` carries nothing, and becomes `None`.
#[verifier::external_body]
pub(crate) fn box_open(
    sealed: &[u8],
    nonce: &[u8; 24],
    sender_public: &[u8; 32],
    recipient_secret: &[u8; 32],
) -> (opened: Option<Vec<u8>>)
    ensures
        match opened {
            Some(message) => box_opened(sealed@, nonce@, sender_public@, recipient_secret@)
                == Some(message@),
            None => box_opened(sealed@, nonce@, sender_public@, recipient_secret@).is_none(),
        },
        opened matches Some(message) ==> message@.len() + MAC_BYTES == sealed@.len(),
{
    box_::open(
        sealed,
        &box_::Nonce(*nonce),
        &box_::PublicKey(*sender_public),
        &box_::SecretKey(*recipient_secret),
    ).ok()
}

/// Calls `secretbox::gen_nonce`: 24 random bytes. Nothing is claimed of them.
#[verifier::external_body]
pub(crate) fn secretbox_nonce() -> (nonce: [u8; 24]) {
    secretbox::gen_nonce().0
}

/// Calls `secretbox::seal`.
///
/// Claimed: the result is the message's length and an authentication tag
/// long, and `secretbox::open` gives the message back from it under the same
/// nonce and key.
#[verifier::external_body]
pub(crate) fn secretbox_seal(message: &[u8], nonce: &[u8; 24], key: &[u8; 32]) -> (sealed: Vec<u8>)
    requires
        message@.len() + MAC_BYTES <= isize::MAX,
    ensures
        sealed@.len() == message@.len() + MAC_BYTES,
        secretbox_opened(sealed@, nonce@, key@) == Some(message@),
{
    secretbox::seal(message, &secretbox::Nonce(*nonce), &secretbox::Key(*key))
}

/// Calls `secretbox::open`.
///
/// Claimed: the result depends on the three arguments alone, and an opened
/// message is an authentication tag shorter than the sealed bytes. The
/// error of `secretbox::open` carries nothing, and becomes `None`.
#[verifier::external_body]
pub(crate) fn secretbox_open(sealed: &[u8], nonce: &[u8; 24], key: &[u8; 32]) -> (opened: Option<
    Vec<u8>,
>)
    ensures
        match opened {
            Some(message) => secretbox_opened(sealed@, nonce@, key@) == Some(message@),
            None => secretbox_opened(sealed@, nonce@, key@).is_none(),
        },
        opened matches Some(message) ==> message@.len() + MAC_BYTES == sealed@.len(),
{
    secretbox::open(sealed, &secretbox::Nonce(*nonce), &secretbox::Key(*key)).ok()
}

} // verus!
