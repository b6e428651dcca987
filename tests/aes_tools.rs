use fennel_cipher::cipher::{
    aes_decrypt, aes_encrypt, generate_buffer, generate_keys, AESCipher, CipherKey, Direction,
};
use fennel_cipher::error::CipherError;

const MESSAGE: &str = "
    {
        \"id\": 1,
        \"name\": \"xyzab\"
    }";

fn fixed_keys() -> (CipherKey, CipherKey) {
    let material: Vec<u8> = (0u8..16).collect();
    let e = CipherKey::new(&material, Direction::Encrypt).unwrap();
    let d = CipherKey::new(&material, Direction::Decrypt).unwrap();
    (e, d)
}

fn fixed_iv() -> Vec<u8> {
    (0u8..32).collect()
}

#[test]
fn test_key_gen() {
    generate_keys().unwrap();
}

#[test]
fn test_encrypt() {
    let (encrypt_key, _) = generate_keys().unwrap();
    let iv = generate_buffer(32).unwrap();
    let ciphertext = aes_encrypt(&encrypt_key, iv, MESSAGE).unwrap();
    assert_eq!(ciphertext.len() % 16, 0);
    assert!(ciphertext.len() > MESSAGE.len());
}

#[test]
fn test_message_is_same() {
    let message = MESSAGE.to_string();
    let cipher: AESCipher = AESCipher::new().unwrap();
    let ciphertext: Vec<u8> = cipher.encrypt(&message);
    let plaintext = cipher.decrypt(ciphertext).unwrap();
    assert_eq!(plaintext, message);
}

#[test]
fn known_answer_first_two_blocks() {
    let (e, _) = fixed_keys();
    let zeros = "\0".repeat(32);
    let ct = aes_encrypt(&e, fixed_iv(), &zeros).unwrap();
    let expected: [u8; 32] = [
        0x1a, 0x85, 0x19, 0xa6, 0x55, 0x7b, 0xe6, 0x52, 0xe9, 0xda, 0x8e, 0x43, 0xda, 0x4e, 0xf4,
        0x45, 0x3c, 0xf4, 0x56, 0xb4, 0xca, 0x48, 0x8a, 0xa3, 0x83, 0xc7, 0x9c, 0x98, 0xb3, 0x47,
        0x97, 0xcb,
    ];
    assert_eq!(ct.len(), 48);
    assert_eq!(&ct[..32], &expected[..]);
}

#[test]
fn hello_world_round_trip_one_block() {
    let (e, d) = fixed_keys();
    let ct = aes_encrypt(&e, fixed_iv(), "hello world").unwrap();
    assert_eq!(ct.len(), 16);
    assert_ne!(&ct[..11], "hello world".as_bytes());
    assert_eq!(aes_decrypt(&d, fixed_iv(), ct).unwrap(), "hello world");
}

#[test]
fn two_full_blocks_get_a_third() {
    let (e, d) = fixed_keys();
    let text = "0123456789abcdef0123456789abcdef";
    assert_eq!(text.len(), 32);
    let ct = aes_encrypt(&e, fixed_iv(), text).unwrap();
    assert_eq!(ct.len(), 48);
    assert_eq!(aes_decrypt(&d, fixed_iv(), ct).unwrap(), text);
}

#[test]
fn trailing_whitespace_and_empty_text_survive() {
    let (e, d) = fixed_keys();
    for text in ["", "  trailing  \n\t", "caf\u{e9} \u{1f600}"] {
        let ct = aes_encrypt(&e, fixed_iv(), text).unwrap();
        assert_eq!(aes_decrypt(&d, fixed_iv(), ct).unwrap(), text);
    }
}

#[test]
fn encryption_is_deterministic() {
    let (e, _) = fixed_keys();
    let (e2, _) = fixed_keys();
    let a = aes_encrypt(&e, fixed_iv(), MESSAGE).unwrap();
    let b = aes_encrypt(&e, fixed_iv(), MESSAGE).unwrap();
    let c = aes_encrypt(&e2, fixed_iv(), MESSAGE).unwrap();
    assert_eq!(a, b);
    assert_eq!(a, c);
}

#[test]
fn keys_refuse_the_wrong_direction() {
    let (e, d) = fixed_keys();
    assert_eq!(aes_encrypt(&d, fixed_iv(), "x"), Err(CipherError::InvalidConfiguration));
    let ct = aes_encrypt(&e, fixed_iv(), "x").unwrap();
    assert_eq!(aes_decrypt(&e, fixed_iv(), ct), Err(CipherError::InvalidConfiguration));
}

#[test]
fn iv_of_wrong_length_is_refused() {
    let (e, d) = fixed_keys();
    assert_eq!(aes_encrypt(&e, vec![0u8; 16], "x"), Err(CipherError::InvalidConfiguration));
    assert_eq!(aes_decrypt(&d, vec![0u8; 33], vec![0u8; 16]), Err(CipherError::InvalidConfiguration));
}

#[test]
fn partial_block_ciphertext_fails_to_decode() {
    let (_, d) = fixed_keys();
    assert_eq!(aes_decrypt(&d, fixed_iv(), vec![0u8; 15]), Err(CipherError::Decoding));
    assert_eq!(aes_decrypt(&d, fixed_iv(), Vec::new()), Err(CipherError::Decoding));
}

#[test]
fn flipped_bit_is_not_the_plaintext() {
    let (e, d) = fixed_keys();
    let text = "0123456789abcdef0123456789abcdef0123456789abcdef";
    let mut ct = aes_encrypt(&e, fixed_iv(), text).unwrap();
    ct[0] ^= 1;
    let out = aes_decrypt(&d, fixed_iv(), ct);
    assert_ne!(out, Ok(text.to_string()));
}

#[test]
fn other_iv_does_not_decrypt() {
    let (e, d) = fixed_keys();
    let text = "0123456789abcdef0123456789abcdef";
    let ct = aes_encrypt(&e, fixed_iv(), text).unwrap();
    let out = aes_decrypt(&d, vec![7u8; 32], ct);
    assert_ne!(out, Ok(text.to_string()));
}

#[test]
fn key_material_lengths() {
    for n in [16usize, 24, 32] {
        assert!(CipherKey::new(&vec![1u8; n], Direction::Encrypt).is_ok());
        assert!(CipherKey::new(&vec![1u8; n], Direction::Decrypt).is_ok());
    }
    for n in [0usize, 15, 17, 31, 33] {
        assert!(matches!(
            CipherKey::new(&vec![1u8; n], Direction::Encrypt),
            Err(CipherError::InvalidConfiguration)
        ));
    }
}

#[test]
fn random_buffers_have_the_asked_length() {
    assert_eq!(generate_buffer(32).unwrap().len(), 32);
    assert_eq!(generate_buffer(0).unwrap().len(), 0);
    assert_eq!(generate_buffer(usize::MAX), Err(CipherError::InvalidConfiguration));
}

#[test]
fn cipher_instances_use_their_own_keys() {
    let a = AESCipher::new().unwrap();
    let b = AESCipher::new().unwrap();
    let ct = a.encrypt("hello world");
    assert_eq!(ct.len(), 16);
    assert_eq!(a.decrypt(ct.clone()).unwrap(), "hello world");
    assert_ne!(b.decrypt(ct), Ok("hello world".to_string()));
}
