use passkeeper::crypto_utils::{
    gen_nonce, get_master_key, get_scrypt_params, ScryptParams, SCRYPT_LOG_N, SCRYPT_P, SCRYPT_R,
};

fn counting_salt() -> [u8; 32] {
    let mut salt = [0u8; 32];
    for (i, byte) in salt.iter_mut().enumerate() {
        *byte = i as u8;
    }
    salt
}

#[test]
fn scrypt_params_are_the_fixed_ones() {
    let params: ScryptParams = get_scrypt_params();
    assert_eq!(params, ScryptParams { log_n: 5, r: 8, p: 1 });
    assert_eq!((params.log_n, params.r, params.p), (SCRYPT_LOG_N, SCRYPT_R, SCRYPT_P));
}

#[test]
fn master_key_matches_known_answer() {
    let key = get_master_key(b"hunter2".to_vec(), counting_salt());
    assert_eq!(
        key,
        [
            208, 155, 135, 130, 208, 151, 0, 52, 250, 169, 76, 105, 94, 142, 219, 189, 170, 229,
            19, 64, 240, 119, 24, 212, 183, 85, 3, 240, 9, 200, 110, 209
        ]
    );
}

#[test]
fn master_key_of_empty_password_matches_known_answer() {
    let key = get_master_key(Vec::new(), counting_salt());
    assert_eq!(
        key,
        [
            126, 141, 54, 199, 171, 215, 197, 37, 220, 161, 185, 1, 176, 53, 118, 187, 196, 225,
            236, 79, 255, 236, 183, 46, 161, 232, 199, 226, 13, 8, 229, 231
        ]
    );
}

#[test]
fn master_key_of_long_password_matches_known_answer() {
    let key = get_master_key(b"correct horse battery staple".to_vec(), counting_salt());
    assert_eq!(
        key,
        [
            198, 186, 103, 19, 207, 20, 20, 38, 78, 103, 31, 78, 131, 190, 19, 139, 41, 172, 254,
            204, 221, 103, 101, 101, 39, 86, 172, 184, 64, 236, 207, 192
        ]
    );
}

#[test]
fn master_key_under_zero_salt_matches_known_answer() {
    let key = get_master_key(b"hunter2".to_vec(), [0u8; 32]);
    assert_eq!(
        key,
        [
            37, 247, 14, 194, 237, 115, 167, 38, 99, 168, 246, 33, 236, 246, 97, 165, 17, 102, 0,
            5, 147, 76, 18, 2, 28, 5, 244, 219, 35, 37, 97, 252
        ]
    );
}

#[test]
fn master_key_is_deterministic() {
    let salt = gen_nonce();
    let first = get_master_key(b"hunter2".to_vec(), salt);
    let second = get_master_key(b"hunter2".to_vec(), salt);
    assert_eq!(first, second);
}

#[test]
fn master_key_differs_with_the_password() {
    let salt = counting_salt();
    let first = get_master_key(b"hunter2".to_vec(), salt);
    let second = get_master_key(b"hunter3".to_vec(), salt);
    assert_ne!(first, second);
}

#[test]
fn master_key_differs_with_the_salt() {
    let first = get_master_key(b"hunter2".to_vec(), counting_salt());
    let second = get_master_key(b"hunter2".to_vec(), [0u8; 32]);
    assert_ne!(first, second);
}

#[test]
fn master_key_is_not_the_salt() {
    let salt = counting_salt();
    assert_ne!(get_master_key(salt.to_vec(), salt), salt);
}

#[test]
fn nonces_are_fresh() {
    let first = gen_nonce();
    let second = gen_nonce();
    assert_ne!(first, second);
    assert_ne!(first, [0u8; 32]);
}
