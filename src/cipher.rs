use vstd::prelude::*;
use vstd::string::StringSliceAdditionalSpecFns;
use vstd::utf8::{decode_utf8, encode_utf8, valid_utf8};
use openssl::aes::{aes_ige, AesKey, KeyError};
use openssl::error::ErrorStack;
use openssl::rand::rand_bytes;
use openssl::symm::Mode;
use crate::error::CipherError;
use crate::padding::{lemma_pad_fills_block, lemma_unpad_pad, pad, padded, unpad, unpadded};

verus! {

#[verifier::external_type_specification]
#[verifier::external_body]
pub struct ExAesKey(AesKey);

#[verifier::external_type_specification]
#[verifier::external_body]
pub struct ExKeyError(KeyError);

#[verifier::external_type_specification]
#[verifier::external_body]
pub struct ExErrorStack(ErrorStack);

/// AES works on blocks of 16 bytes.
pub const AES_BLOCK_SIZE: usize = 16;

/// IGE mode seeds its chain with two blocks: 32 bytes of IV.
pub const IV_LENGTH: usize = 32;

/// Fresh keys are drawn as 128 bits of random material.
pub const KEY_LENGTH: usize = 16;

/// The largest buffer that the random source fills in one call.
pub const MAX_RANDOM_LENGTH: usize = 0x7fff_ffff;

/// The one operation a key was prepared for.
#[derive(Debug, Clone, Copy, PartialEq, Eq, Structural)]
pub enum Direction {
    Encrypt,
    Decrypt,
}

/// What AES in IGE mode turns `input` into, under the AES key expanded from
/// the bytes `key`, with chaining seeded by `iv`, encrypting or decrypting.
pub uninterp spec fn aes_ige_of(key: Seq<u8>, iv: Seq<u8>, input: Seq<u8>, encrypt: bool) -> Seq<u8>;

/// AES accepts keys of 128, 192 or 256 bits.
pub open spec fn valid_key_length(n: nat) -> bool {
    n == 16 || n == 24 || n == 32
}

/// The ciphertext of `text`: its UTF-8 bytes, padded to whole AES blocks,
/// encrypted in IGE mode.
pub open spec fn encryption_of(key: Seq<u8>, iv: Seq<u8>, text: Seq<char>) -> Seq<u8> {
    aes_ige_of(key, iv, padded(encode_utf8(text), AES_BLOCK_SIZE as nat), true)
}

/// The text that `ciphertext` decrypts to, or `None` where it is not whole
/// blocks, its decryption carries no valid padding, or what the padding
/// leaves is not UTF-8.
pub open spec fn decryption_of(key: Seq<u8>, iv: Seq<u8>, ciphertext: Seq<u8>) -> Option<Seq<char>> {
    if (ciphertext.len() as int) % (AES_BLOCK_SIZE as int) != 0 {
        None
    } else {
        match unpadded(aes_ige_of(key, iv, ciphertext, false), AES_BLOCK_SIZE as nat) {
            Some(b) => if valid_utf8(b) {
                Some(decode_utf8(b))
            } else {
                None
            },
            None => None,
        }
    }
}

/// An AES key together with the bytes it was expanded from and the one
/// direction it was prepared for.
pub struct CipherKey {
    aes: AesKey,
    material: Vec<u8>,
    direction: Direction,
}

/// Relies on openssl's `AesKey::new_encrypt`: it prepares an encryption key
/// and fails exactly when the key is not 128, 192 or 256 bits long.
#[verifier::external_body]
fn aes_encrypt_key(material: &[u8]) -> (r: Result<AesKey, KeyError>)
    requires
        material@.len() <= 32,
    ensures
        r is Ok <==> valid_key_length(material@.len()),
{
    AesKey::new_encrypt(material)
}

/// Relies on openssl's `AesKey::new_decrypt`: it prepares a decryption key
/// and fails exactly when the key is not 128, 192 or 256 bits long.
#[verifier::external_body]
fn aes_decrypt_key(material: &[u8]) -> (r: Result<AesKey, KeyError>)
    requires
        material@.len() <= 32,
    ensures
        r is Ok <==> valid_key_length(material@.len()),
{
    AesKey::new_decrypt(material)
}

/// Relies on openssl's `rand_bytes`: it overwrites the buffer in place with
/// cryptographically strong random bytes, or reports that it could not.
#[verifier::external_body]
fn fill_random(buf: &mut Vec<u8>) -> (r: Result<(), ErrorStack>)
    requires
        old(buf)@.len() <= MAX_RANDOM_LENGTH,
    ensures
        final(buf)@.len() == old(buf)@.len(),
{
    rand_bytes(buf.as_mut_slice())
}

/// Relies on openssl's `aes_ige`, run on a fresh output buffer of the input's
/// length and on a copy of the IV. The AES key in `key` is the one that
/// `CipherKey::new` expanded from `key.material()` for `key.direction()`, so
/// the output is AES-IGE of the input under that material, and decrypting
/// what the same material and IV encrypted gives the plaintext back.
#[verifier::external_body]
fn ige_transform(key: &CipherKey, iv: &[u8], input: &[u8]) -> (r: Vec<u8>)
    requires
        (input@.len() as int) % (AES_BLOCK_SIZE as int) == 0,
        iv@.len() >= IV_LENGTH,
    ensures
        r@ == aes_ige_of(key.material(), iv@, input@, key.direction() == Direction::Encrypt),
        r@.len() == input@.len(),
        key.direction() == Direction::Decrypt ==> forall|x: Seq<u8>|
            (x.len() as int) % (AES_BLOCK_SIZE as int) == 0 && #[trigger] aes_ige_of(
                key.material(),
                iv@,
                x,
                true,
            ) == input@ ==> r@ == x,
{
    let mut out = vec![0u8; input.len()];
    let mut chain = iv.to_vec();
    let mode = match key.direction {
        Direction::Encrypt => Mode::Encrypt,
        Direction::Decrypt => Mode::Decrypt,
    };
    aes_ige(input, &mut out, &key.aes, &mut chain, mode);
    out
}

/// Relies on std's `String::from_utf8`: it succeeds exactly on valid UTF-8,
/// and the string then holds the characters those bytes encode.
#[verifier::external_body]
fn string_from_utf8(bytes: Vec<u8>) -> (r: Option<String>)
    ensures
        r is Some <==> valid_utf8(bytes@),
        r matches Some(s) ==> s@ == decode_utf8(bytes@),
{
    String::from_utf8(bytes).ok()
}

impl CipherKey {
    /// The bytes the key was expanded from.
    pub closed spec fn material(&self) -> Seq<u8> {
        self.material@
    }

    /// The direction the key was prepared for.
    pub closed spec fn direction(&self) -> Direction {
        self.direction
    }

    /// Prepares `material` as an AES key for `direction` alone. Fails with
    /// `InvalidConfiguration` unless it is 16, 24 or 32 bytes long.
    pub fn new(material: &[u8], direction: Direction) -> (r: Result<CipherKey, CipherError>)
        ensures
            r is Ok <==> valid_key_length(material@.len()),
            !valid_key_length(material@.len()) ==> r == Err::<CipherKey, CipherError>(
                CipherError::InvalidConfiguration,
            ),
            r matches Ok(k) ==> k.material() == material@ && k.direction() == direction,
    {
        let n = material.len();
        if n != 16 && n != 24 && n != 32 {
            return Err(CipherError::InvalidConfiguration);
        }
        let prepared = match direction {
            Direction::Encrypt => aes_encrypt_key(material),
            Direction::Decrypt => aes_decrypt_key(material),
        };
        match prepared {
            Ok(aes) => Ok(CipherKey { aes, material: vstd::slice::slice_to_vec(material), direction }),
            Err(_) => Err(CipherError::KeyGeneration),
        }
    }
}

/// Draws `length` bytes from the cryptographically secure random source.
/// Fails with `KeyGeneration` where the source fails, and with
/// `InvalidConfiguration` where `length` is beyond what it fills at once.
pub fn generate_buffer(length: usize) -> (r: Result<Vec<u8>, CipherError>)
    ensures
        length > MAX_RANDOM_LENGTH ==> r == Err::<Vec<u8>, CipherError>(
            CipherError::InvalidConfiguration,
        ),
        r matches Ok(v) ==> v@.len() == length,
        r matches Err(e) ==> e == (if length > MAX_RANDOM_LENGTH {
            CipherError::InvalidConfiguration
        } else {
            CipherError::KeyGeneration
        }),
{
    if length > MAX_RANDOM_LENGTH {
        return Err(CipherError::InvalidConfiguration);
    }
    let mut buf: Vec<u8> = vec![0u8; length];
    match fill_random(&mut buf) {
        Ok(()) => Ok(buf),
        Err(_) => Err(CipherError::KeyGeneration),
    }
}

/// Draws 128 bits of random material and prepares it twice: once as an
/// encryption key and once as a decryption key. Fails with `KeyGeneration`
/// where the random source fails.
pub fn generate_keys() -> (r: Result<(CipherKey, CipherKey), CipherError>)
    ensures
        r matches Ok(pair) ==> {
            &&& pair.0.direction() == Direction::Encrypt
            &&& pair.1.direction() == Direction::Decrypt
            &&& pair.0.material() == pair.1.material()
            &&& pair.0.material().len() == KEY_LENGTH
        },
        r matches Err(e) ==> e == CipherError::KeyGeneration,
{
    let material = match generate_buffer(KEY_LENGTH) {
        Ok(b) => b,
        Err(e) => return Err(e),
    };
    let encrypt_key = match CipherKey::new(material.as_slice(), Direction::Encrypt) {
        Ok(k) => k,
        Err(e) => return Err(e),
    };
    let decrypt_key = match CipherKey::new(material.as_slice(), Direction::Decrypt) {
        Ok(k) => k,
        Err(e) => return Err(e),
    };
    Ok((encrypt_key, decrypt_key))
}

/// Pads the UTF-8 bytes of `plaintext` to whole AES blocks and encrypts them
/// in IGE mode under `key` and `iv`. Fails with `InvalidConfiguration`, before
/// any work, where `key` was prepared for decryption or `iv` is not 32 bytes.
pub fn aes_encrypt(key: &CipherKey, iv: Vec<u8>, plaintext: &str) -> (r: Result<Vec<u8>, CipherError>)
    requires
        plaintext.spec_bytes().len() + 255 <= usize::MAX,
    ensures
        r is Ok <==> key.direction() == Direction::Encrypt && iv@.len() == IV_LENGTH,
        r matches Err(e) ==> e == CipherError::InvalidConfiguration,
        r matches Ok(c) ==> c@ == encryption_of(key.material(), iv@, plaintext@),
        r matches Ok(c) ==> c@.len() == padded(
            encode_utf8(plaintext@),
            AES_BLOCK_SIZE as nat,
        ).len() && (c@.len() as int) % (AES_BLOCK_SIZE as int) == 0,
{
    match key.direction {
        Direction::Encrypt => {},
        Direction::Decrypt => return Err(CipherError::InvalidConfiguration),
    }
    if iv.len() != IV_LENGTH {
        return Err(CipherError::InvalidConfiguration);
    }
    let bytes = plaintext.as_bytes();
    let buffer = match pad(bytes, None) {
        Ok(b) => b,
        Err(e) => return Err(e),
    };
    proof {
        lemma_pad_fills_block(bytes@.len(), AES_BLOCK_SIZE as nat);
    }
    Ok(ige_transform(key, iv.as_slice(), buffer.as_slice()))
}

/// Decrypts `ciphertext` in IGE mode under `key` and `iv`, strips the padding
/// and reads the rest as UTF-8. Fails with `InvalidConfiguration`, before any
/// work, where `key` was prepared for encryption or `iv` is not 32 bytes; and
/// with `Decoding` where the ciphertext is not whole blocks, or what it
/// decrypts to carries no valid padding or is not UTF-8. Whatever `aes_encrypt`
/// made from a text (always whole blocks), with the same key material and IV,
/// decrypts to that text.
pub fn aes_decrypt(key: &CipherKey, iv: Vec<u8>, ciphertext: Vec<u8>) -> (r: Result<String, CipherError>)
    ensures
        !(key.direction() == Direction::Decrypt && iv@.len() == IV_LENGTH) ==> r == Err::<
            String,
            CipherError,
        >(CipherError::InvalidConfiguration),
        key.direction() == Direction::Decrypt && iv@.len() == IV_LENGTH ==> match decryption_of(
            key.material(),
            iv@,
            ciphertext@,
        ) {
            Some(t) => r matches Ok(s) && s@ == t,
            None => r == Err::<String, CipherError>(CipherError::Decoding),
        },
        key.direction() == Direction::Decrypt && iv@.len() == IV_LENGTH && (ciphertext@.len() as int)
            % (AES_BLOCK_SIZE as int) == 0 ==> forall|t: Seq<char>|
            #[trigger] encryption_of(key.material(), iv@, t) == ciphertext@ ==> (r matches Ok(s)
                && s@ == t),
{
    match key.direction {
        Direction::Decrypt => {},
        Direction::Encrypt => return Err(CipherError::InvalidConfiguration),
    }
    if iv.len() != IV_LENGTH {
        return Err(CipherError::InvalidConfiguration);
    }
    proof {
        lemma_encryptions_decrypt(key.material(), iv@, ciphertext@);
    }
    if ciphertext.len() % AES_BLOCK_SIZE != 0 {
        return Err(CipherError::Decoding);
    }
    let plain = ige_transform(key, iv.as_slice(), ciphertext.as_slice());
    let bytes = match unpad(plain.as_slice(), None) {
        Ok(b) => b,
        Err(e) => return Err(e),
    };
    match string_from_utf8(bytes) {
        Some(s) => Ok(s),
        None => Err(CipherError::Decoding),
    }
}

/// Every ciphertext of a text is whole AES blocks, and decrypting those blocks
/// back to that padded text yields the text.
proof fn lemma_encryptions_decrypt(key: Seq<u8>, iv: Seq<u8>, ciphertext: Seq<u8>)
    ensures
        forall|t: Seq<char>| #[trigger] encryption_of(key, iv, t) == ciphertext ==> {
            let x = padded(encode_utf8(t), AES_BLOCK_SIZE as nat);
            &&& (x.len() as int) % (AES_BLOCK_SIZE as int) == 0
            &&& unpadded(x, AES_BLOCK_SIZE as nat) == Some(encode_utf8(t))
            &&& valid_utf8(encode_utf8(t))
            &&& decode_utf8(encode_utf8(t)) == t
        },
{
    assert forall|t: Seq<char>| #[trigger] encryption_of(key, iv, t) == ciphertext implies {
        let x = padded(encode_utf8(t), AES_BLOCK_SIZE as nat);
        &&& (x.len() as int) % (AES_BLOCK_SIZE as int) == 0
        &&& unpadded(x, AES_BLOCK_SIZE as nat) == Some(encode_utf8(t))
        &&& valid_utf8(encode_utf8(t))
        &&& decode_utf8(encode_utf8(t)) == t
    } by {
        lemma_pad_fills_block(encode_utf8(t).len(), AES_BLOCK_SIZE as nat);
        lemma_unpad_pad(encode_utf8(t), AES_BLOCK_SIZE as nat);
        vstd::utf8::encode_utf8_valid_utf8(t);
        vstd::utf8::encode_utf8_decode_utf8(t);
    }
}

/// Encryption is deterministic: keys over the same material, with the same IV
/// and text, give the same ciphertext, however often `aes_encrypt` is called.
pub proof fn lemma_encrypt_deterministic(a: &CipherKey, b: &CipherKey, iv: Seq<u8>, text: Seq<char>)
    requires
        a.material() == b.material(),
    ensures
        encryption_of(a.material(), iv, text) == encryption_of(b.material(), iv, text),
{
}

/// A cipher instance: one key pair over one random material, and one IV used
/// for every call it serves.
pub struct AESCipher {
    encrypt_key: CipherKey,
    decrypt_key: CipherKey,
    iv: Vec<u8>,
}

impl AESCipher {
    /// The material both keys were expanded from.
    pub closed spec fn key_material(&self) -> Seq<u8> {
        self.encrypt_key.material()
    }

    /// The IV used for every encryption and decryption.
    pub closed spec fn iv(&self) -> Seq<u8> {
        self.iv@
    }

    /// One key prepared for each direction over the same material, and an IV
    /// of 32 bytes.
    pub closed spec fn wf(&self) -> bool {
        &&& self.encrypt_key.direction() == Direction::Encrypt
        &&& self.decrypt_key.direction() == Direction::Decrypt
        &&& self.decrypt_key.material() == self.encrypt_key.material()
        &&& self.iv@.len() == IV_LENGTH
    }

    /// Draws a fresh key pair of 128 bits and a fresh IV of 32 bytes. Fails
    /// with `KeyGeneration` where the random source fails.
    pub fn new() -> (r: Result<AESCipher, CipherError>)
        ensures
            r matches Ok(c) ==> c.wf() && c.key_material().len() == KEY_LENGTH && c.iv().len()
                == IV_LENGTH,
            r matches Err(e) ==> e == CipherError::KeyGeneration,
    {
        let keys = match generate_keys() {
            Ok(k) => k,
            Err(e) => return Err(e),
        };
        let iv = match generate_buffer(IV_LENGTH) {
            Ok(b) => b,
            Err(e) => return Err(e),
        };
        Ok(AESCipher { encrypt_key: keys.0, decrypt_key: keys.1, iv })
    }

    /// Encrypts `plaintext` under this instance's key and IV.
    pub fn encrypt(&self, plaintext: &str) -> (r: Vec<u8>)
        requires
            self.wf(),
            plaintext.spec_bytes().len() + 255 <= usize::MAX,
        ensures
            r@ == encryption_of(self.key_material(), self.iv(), plaintext@),
            (r@.len() as int) % (AES_BLOCK_SIZE as int) == 0,
            r@.len() > plaintext.spec_bytes().len(),
    {
        proof {
            lemma_pad_fills_block(plaintext.spec_bytes().len(), AES_BLOCK_SIZE as nat);
        }
        match aes_encrypt(&self.encrypt_key, self.iv.clone(), plaintext) {
            Ok(c) => c,
            Err(_) => {
                proof {
                    assert(false);
                }
                Vec::new()
            },
        }
    }

    /// Decrypts `ciphertext` under this instance's key and IV. Fails with
    /// `Decoding` exactly where `decryption_of` has no text for it; gives back
    /// the text of every ciphertext that `encrypt` made.
    pub fn decrypt(&self, ciphertext: Vec<u8>) -> (r: Result<String, CipherError>)
        requires
            self.wf(),
        ensures
            match decryption_of(self.key_material(), self.iv(), ciphertext@) {
                Some(t) => r matches Ok(s) && s@ == t,
                None => r == Err::<String, CipherError>(CipherError::Decoding),
            },
            (ciphertext@.len() as int) % (AES_BLOCK_SIZE as int) == 0 ==> forall|t: Seq<char>|
                #[trigger] encryption_of(self.key_material(), self.iv(), t) == ciphertext@ ==> (r matches Ok(
                    s,
                ) && s@ == t),
    {
        aes_decrypt(&self.decrypt_key, self.iv.clone(), ciphertext)
    }
}

} // verus!
