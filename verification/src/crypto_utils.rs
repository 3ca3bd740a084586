//! Key derivation: from a password and a salt to a 32-byte key.

use crypto::scrypt;
use rand::Rng;
use vstd::prelude::*;

verus! {

/// Cost parameters of the key derivation function.
#[derive(Clone, Copy, Debug, PartialEq, Eq, Structural)]
pub struct ScryptParams {
    /// Base-2 logarithm of the number of iterations.
    pub log_n: u8,
    /// Block size.
    pub r: u32,
    /// Parallelism.
    pub p: u32,
}

/// Base-2 logarithm of the iteration count that every vault uses.
pub const SCRYPT_LOG_N: u8 = 5;

/// Block size that every vault uses.
pub const SCRYPT_R: u32 = 8;

/// Parallelism that every vault uses.
pub const SCRYPT_P: u32 = 1;

impl ScryptParams {
    /// A range of parameters that the derivation accepts wherever `usize` has
    /// 32 bits or more.
    pub open spec fn accepted(self) -> bool {
        &&& 1 <= self.log_n <= 15
        &&& 1 <= self.r <= 64
        &&& 1 <= self.p <= 64
    }
}

/// The 32 bytes that scrypt derives from a password and a salt under the
/// given cost parameters: what `scrypt::scrypt` writes into a 32-byte output.
pub uninterp spec fn scrypt_derived(
    password: Seq<u8>,
    salt: Seq<u8>,
    log_n: u8,
    r: u32,
    p: u32,
) -> Seq<u8>;

/// The key that a password and a salt give under the vault's fixed parameters.
pub open spec fn master_key_of(password: Seq<u8>, salt: Seq<u8>) -> Seq<u8> {
    scrypt_derived(password, salt, SCRYPT_LOG_N, SCRYPT_R, SCRYPT_P)
}

/// Calls `fill_bytes` on rand's `thread_rng()`: every byte of `dest` is
/// overwritten with a random one. Nothing is claimed of them.
#[verifier::external_body]
fn fill_random(dest: &mut [u8; 32]) {
    rand::thread_rng().fill_bytes(dest)
}

/// Calls `scrypt::scrypt` with a 32-byte output, on parameters made by
/// `scrypt::ScryptParams::new`.
///
/// Claimed: the output depends on the password, the salt and the three
/// parameters alone. The parameters must lie where the constructor's
/// assertions hold and its multiplications fit a 32-bit `usize`.
#[verifier::external_body]
fn scrypt_key(password: &[u8], salt: &[u8; 32], params: ScryptParams) -> (key: [u8; 32])
    requires
        params.accepted(),
    ensures
        key@ == scrypt_derived(password@, salt@, params.log_n, params.r, params.p),
{
    let outside = scrypt::ScryptParams::new(params.log_n, params.r, params.p);
    let mut key = [0u8; 32];
    scrypt::scrypt(password, salt, &outside, &mut key);
    key
}

/// Returns 32 random bytes.
pub fn gen_nonce() -> (salt: [u8; 32]) {
    let mut salt = [0u8; 32];
    fill_random(&mut salt);
    salt
}

/// Returns the default scrypt parameters.
pub fn get_scrypt_params() -> (params: ScryptParams)
    ensures
        params.log_n == SCRYPT_LOG_N,
        params.r == SCRYPT_R,
        params.p == SCRYPT_P,
        params.accepted(),
{
    ScryptParams { log_n: SCRYPT_LOG_N, r: SCRYPT_R, p: SCRYPT_P }
}

/// Derives a key from `password` with scrypt, returns resulting key.
pub fn get_master_key(password: Vec<u8>, salt: [u8; 32]) -> (key: [u8; 32])
    ensures
        key@ == master_key_of(password@, salt@),
{
    let params = get_scrypt_params();
    scrypt_key(password.as_slice(), &salt, params)
}

/// The derived key depends on the password and the salt alone: the same
/// password and salt always give the same key.
pub proof fn lemma_master_key_deterministic(
    password: Seq<u8>,
    salt: Seq<u8>,
    same_password: Seq<u8>,
    same_salt: Seq<u8>,
)
    requires
        password =~= same_password,
        salt =~= same_salt,
    ensures
        master_key_of(password, salt) == master_key_of(same_password, same_salt),
{
}

} // verus!
