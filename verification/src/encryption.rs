//! Authenticated encryption of whole files.
//!
//! An encrypted file holds a nonce of 12 bytes and the sealed data, each
//! written as its length in 8 bytes, least significant first, followed by
//! its bytes.

use vstd::prelude::*;
use aes_gcm::aead::{Aead, AeadCore};
use aes_gcm::KeyInit;
use vstd::bytes::{
    lemma_auto_spec_u64_to_from_le_bytes, spec_u64_from_le_bytes, spec_u64_to_le_bytes,
    u64_from_le_bytes, u64_to_le_bytes,
};
use vstd::slice::slice_subrange;
use crate::text::char_vec;

verus! {

/// The length of a key in bytes.
pub const KEY_LEN: usize = 32;

/// The length of a nonce in bytes.
pub const NONCE_LEN: usize = 12;

/// The length of the authentication tag in bytes.
pub const TAG_LEN: usize = 16;

/// The most bytes that can be sealed at once.
pub const MAX_PLAINTEXT_LEN: u64 = 0x10_0000_0000;

/// How often a file is overwritten before it is deleted for good.
pub const SECURE_DELETE_PASSES: u32 = 3;

/// Why a key, an encryption or a decryption was refused.
#[derive(Clone, Copy, Debug, PartialEq, Eq, Structural)]
pub enum EncryptionError {
    /// The key is not written in hexadecimal digits.
    InvalidKeyFormat,
    /// The key does not have 32 bytes.
    InvalidKeyLength,
    /// The data is too long to be sealed.
    EncryptionFailed,
    /// The bytes are not a nonce of 12 bytes and sealed data, each after its length.
    Malformed,
    /// The sealed data was not made with this key and nonce, or was changed.
    DecryptionFailed,
}

impl EncryptionError {
    pub open spec fn spec_message(self) -> Seq<char> {
        match self {
            EncryptionError::InvalidKeyFormat => "Invalid encryption key format"@,
            EncryptionError::InvalidKeyLength => "Encryption key must be 32 bytes"@,
            EncryptionError::EncryptionFailed => "Encryption failed"@,
            EncryptionError::Malformed => "Failed to deserialize encrypted data"@,
            EncryptionError::DecryptionFailed => "Decryption failed"@,
        }
    }

    /// What the error says.
    pub fn to_string(&self) -> (s: String)
        ensures
            s@ == self.spec_message(),
    {
        match self {
            EncryptionError::InvalidKeyFormat => String::from_str("Invalid encryption key format"),
            EncryptionError::InvalidKeyLength => String::from_str("Encryption key must be 32 bytes"),
            EncryptionError::EncryptionFailed => String::from_str("Encryption failed"),
            EncryptionError::Malformed => String::from_str("Failed to deserialize encrypted data"),
            EncryptionError::DecryptionFailed => String::from_str("Decryption failed"),
        }
    }
}

/// What AES-256-GCM makes of a plaintext under a key of 32 bytes and a nonce
/// of 12 bytes, without associated data: the ciphertext, as long as the
/// plaintext, followed by the tag of 16 bytes.
pub uninterp spec fn aes_gcm_sealed(key: Seq<u8>, nonce: Seq<u8>, plaintext: Seq<u8>) -> Seq<u8>;

/// `Aes256Gcm::generate_nonce` with the random number generator of the
/// operating system: 12 random bytes.
#[verifier::external_body]
pub(crate) fn fresh_nonce() -> (nonce: Vec<u8>)
    ensures
        nonce@.len() == NONCE_LEN,
{
    aes_gcm::Aes256Gcm::generate_nonce(aes_gcm::aead::OsRng).to_vec()
}

/// `Aes256Gcm::generate_key` with the random number generator of the
/// operating system: 32 random bytes.
#[verifier::external_body]
pub(crate) fn fresh_key() -> (key: [u8; 32]) {
    aes_gcm::Aes256Gcm::generate_key(aes_gcm::aead::OsRng).into()
}

/// `Aes256Gcm::new` followed by `Aead::encrypt`. The cipher refuses a
/// plaintext of more than 2^36 bytes and nothing else, so it succeeds if and
/// only if the plaintext is within that limit; what it returns is a
/// function of key, nonce and plaintext, 16 bytes longer than the plaintext.
#[verifier::external_body]
pub(crate) fn seal(key: &[u8; 32], nonce: &Vec<u8>, plaintext: &[u8]) -> (r: Option<Vec<u8>>)
    requires
        nonce@.len() == NONCE_LEN,
    ensures
        r is Some <==> plaintext@.len() <= MAX_PLAINTEXT_LEN,
        r is Some ==> r->Some_0@ == aes_gcm_sealed(key@, nonce@, plaintext@),
        r is Some ==> r->Some_0@.len() == plaintext@.len() + TAG_LEN,
{
    let cipher = aes_gcm::Aes256Gcm::new(aes_gcm::Key::<aes_gcm::Aes256Gcm>::from_slice(key));
    cipher.encrypt(aes_gcm::Nonce::from_slice(nonce), plaintext).ok()
}

/// `Aes256Gcm::new` followed by `Aead::decrypt`. The cipher recomputes the
/// tag and, where it is the one given, undoes the encryption: so what it
/// returns seals to the given bytes, and it returns the plaintext of
/// whatever was sealed with this key and nonce.
#[verifier::external_body]
pub(crate) fn unseal(key: &[u8; 32], nonce: &Vec<u8>, sealed: &[u8]) -> (r: Option<Vec<u8>>)
    requires
        nonce@.len() == NONCE_LEN,
    ensures
        r is Some ==> aes_gcm_sealed(key@, nonce@, r->Some_0@) == sealed@,
        forall|p: Seq<u8>|
            p.len() <= MAX_PLAINTEXT_LEN && #[trigger] aes_gcm_sealed(key@, nonce@, p) == sealed@ ==> r
                is Some && r->Some_0@ == p,
{
    let cipher = aes_gcm::Aes256Gcm::new(aes_gcm::Key::<aes_gcm::Aes256Gcm>::from_slice(key));
    cipher.decrypt(aes_gcm::Nonce::from_slice(nonce), sealed).ok()
}

/// A nonce and sealed data as the bytes of a file.
pub open spec fn framed(nonce: Seq<u8>, sealed: Seq<u8>) -> Seq<u8> {
    spec_u64_to_le_bytes(nonce.len() as u64) + nonce + spec_u64_to_le_bytes(sealed.len() as u64)
        + sealed
}

/// The nonce and the sealed data that the bytes of a file hold; none where
/// a length or a part is cut short. Bytes after the sealed data are ignored.
pub open spec fn unframed(bytes: Seq<u8>) -> Option<(Seq<u8>, Seq<u8>)> {
    if bytes.len() < 8 {
        None
    } else {
        let n = spec_u64_from_le_bytes(bytes.subrange(0, 8)) as int;
        if bytes.len() < 16 + n {
            None
        } else {
            let m = spec_u64_from_le_bytes(bytes.subrange(8 + n, 16 + n)) as int;
            if bytes.len() < 16 + n + m {
                None
            } else {
                Some((bytes.subrange(8, 8 + n), bytes.subrange(16 + n, 16 + n + m)))
            }
        }
    }
}

/// What was framed can be read back.
pub proof fn lemma_unframe_framed(nonce: Seq<u8>, sealed: Seq<u8>)
    requires
        nonce.len() <= u64::MAX,
        sealed.len() <= u64::MAX,
    ensures
        unframed(framed(nonce, sealed)) == Some((nonce, sealed)),
{
    lemma_auto_spec_u64_to_from_le_bytes();
    let bytes = framed(nonce, sealed);
    let n = nonce.len() as int;
    let m = sealed.len() as int;
    assert(bytes.subrange(0, 8) =~= spec_u64_to_le_bytes(nonce.len() as u64));
    assert(bytes.subrange(8 + n, 16 + n) =~= spec_u64_to_le_bytes(sealed.len() as u64));
    assert(bytes.subrange(8, 8 + n) =~= nonce);
    assert(bytes.subrange(16 + n, 16 + n + m) =~= sealed);
}

/// Whether the bytes of a file decrypt to `plaintext` under `key`.
pub open spec fn opens_to(key: Seq<u8>, bytes: Seq<u8>, plaintext: Seq<u8>) -> bool {
    match unframed(bytes) {
        Some((nonce, sealed)) => nonce.len() == NONCE_LEN && aes_gcm_sealed(key, nonce, plaintext)
            == sealed,
        None => false,
    }
}

/// What holds of the file `bytes` that encrypting `plaintext` under `key`
/// gives: the plaintext is within the limit of the cipher, the file is 44
/// bytes longer than the plaintext, and it holds a nonce of 12 bytes and
/// what the cipher made of the plaintext under that nonce.
pub open spec fn encrypts_to(key: Seq<u8>, plaintext: Seq<u8>, bytes: Seq<u8>) -> bool {
    &&& plaintext.len() <= MAX_PLAINTEXT_LEN
    &&& bytes.len() == plaintext.len() + 8 + NONCE_LEN + 8 + TAG_LEN
    &&& opens_to(key, bytes, plaintext)
}

/// What holds of the result of decrypting the file `bytes` under `key`:
/// a plaintext that comes back is one that the file opens to, and every
/// plaintext within the limit of the cipher that the file opens to comes
/// back.
pub open spec fn decrypts_to(key: Seq<u8>, bytes: Seq<u8>, result: Option<Seq<u8>>) -> bool {
    &&& result is Some ==> opens_to(key, bytes, result->Some_0)
    &&& forall|p: Seq<u8>|
        p.len() <= MAX_PLAINTEXT_LEN && #[trigger] opens_to(key, bytes, p) ==> result == Some(p)
}

/// The plaintext of a result.
pub open spec fn plaintext_of(r: Result<Vec<u8>, EncryptionError>) -> Option<Seq<u8>> {
    match r {
        Ok(bytes) => Some(bytes@),
        Err(_) => None,
    }
}

/// The bytes of a file for a nonce and sealed data.
pub fn frame(nonce: &Vec<u8>, sealed: &Vec<u8>) -> (bytes: Vec<u8>)
    ensures
        bytes@ == framed(nonce@, sealed@),
{
    let mut bytes = u64_to_le_bytes(nonce.len() as u64);
    let mut i: usize = 0;
    while i < nonce.len()
        invariant
            i <= nonce.len(),
            bytes@ == spec_u64_to_le_bytes(nonce.len() as u64) + nonce@.take(i as int),
        decreases nonce.len() - i,
    {
        bytes.push(nonce[i]);
        assert(bytes@ =~= spec_u64_to_le_bytes(nonce.len() as u64) + nonce@.take(i + 1));
        i += 1;
    }
    assert(nonce@.take(nonce.len() as int) =~= nonce@);
    let mut len_bytes = u64_to_le_bytes(sealed.len() as u64);
    bytes.append(&mut len_bytes);
    let ghost head = bytes@;
    let mut k: usize = 0;
    while k < sealed.len()
        invariant
            k <= sealed.len(),
            head == spec_u64_to_le_bytes(nonce.len() as u64) + nonce@ + spec_u64_to_le_bytes(
                sealed.len() as u64,
            ),
            bytes@ == head + sealed@.take(k as int),
        decreases sealed.len() - k,
    {
        bytes.push(sealed[k]);
        assert(bytes@ =~= head + sealed@.take(k + 1));
        k += 1;
    }
    assert(sealed@.take(sealed.len() as int) =~= sealed@);
    bytes
}

fn copy_range(bytes: &[u8], from: usize, to: usize) -> (r: Vec<u8>)
    requires
        from <= to <= bytes@.len(),
    ensures
        r@ == bytes@.subrange(from as int, to as int),
{
    let mut r: Vec<u8> = Vec::new();
    let mut i: usize = from;
    while i < to
        invariant
            from <= i <= to,
            to <= bytes@.len(),
            r@ == bytes@.subrange(from as int, i as int),
        decreases to - i,
    {
        r.push(bytes[i]);
        assert(r@ =~= bytes@.subrange(from as int, i + 1));
        i += 1;
    }
    r
}

/// The nonce and the sealed data that the bytes of a file hold.
pub fn unframe(bytes: &[u8]) -> (r: Option<(Vec<u8>, Vec<u8>)>)
    ensures
        match r {
            Some((nonce, sealed)) => unframed(bytes@) == Some((nonce@, sealed@)),
            None => unframed(bytes@) is None,
        },
{
    let len = bytes.len();
    if len < 8 {
        return None;
    }
    let n: u64 = u64_from_le_bytes(slice_subrange(bytes, 0, 8));
    if n > (len - 8) as u64 || (len - 8) as u64 - n < 8 {
        return None;
    }
    let n: usize = n as usize;
    let m: u64 = u64_from_le_bytes(slice_subrange(bytes, 8 + n, 16 + n));
    if m > (len - 16 - n) as u64 {
        return None;
    }
    let m: usize = m as usize;
    Some((copy_range(bytes, 8, 8 + n), copy_range(bytes, 16 + n, 16 + n + m)))
}

/// The value of a hexadecimal digit.
pub open spec fn hex_value(c: char) -> Option<u8> {
    if '0' <= c <= '9' {
        Some((c as u32 - '0' as u32) as u8)
    } else if 'a' <= c <= 'f' {
        Some((c as u32 - 'a' as u32 + 10) as u8)
    } else if 'A' <= c <= 'F' {
        Some((c as u32 - 'A' as u32 + 10) as u8)
    } else {
        None
    }
}

/// The bytes that a text of hexadecimal digits writes, two digits for each
/// byte, the higher first; none for an odd number of characters or a
/// character that is no such digit.
pub open spec fn hex_decoded(s: Seq<char>) -> Option<Seq<u8>> {
    if s.len() % 2 != 0 || exists|i: int| 0 <= i < s.len() && hex_value(#[trigger] s[i]) is None {
        None
    } else {
        Some(
            Seq::new(
                s.len() / 2,
                |i: int| (hex_value(s[2 * i])->Some_0 * 16 + hex_value(s[2 * i + 1])->Some_0) as u8,
            ),
        )
    }
}

fn hex_digit(c: char) -> (r: Option<u8>)
    ensures
        r == hex_value(c),
        r is Some ==> r->Some_0 < 16,
{
    if '0' <= c && c <= '9' {
        Some((c as u32 - '0' as u32) as u8)
    } else if 'a' <= c && c <= 'f' {
        Some((c as u32 - 'a' as u32 + 10) as u8)
    } else if 'A' <= c && c <= 'F' {
        Some((c as u32 - 'A' as u32 + 10) as u8)
    } else {
        None
    }
}

/// The bytes that a text of hexadecimal digits writes.
pub fn decode_hex(text: &str) -> (r: Option<Vec<u8>>)
    ensures
        match r {
            Some(bytes) => hex_decoded(text@) == Some(bytes@),
            None => hex_decoded(text@) is None,
        },
{
    let chars = char_vec(text);
    let n = chars.len();
    // Every character is looked at, so that a text of odd length with a
    // character that is no digit is refused for either reason alike.
    let mut out: Vec<u8> = Vec::new();
    let mut i: usize = 0;
    while i + 1 < n
        invariant
            n == chars.len(),
            chars@ == text@,
            i % 2 == 0,
            i <= n,
            out@.len() == i / 2,
            forall|k: int| 0 <= k < i ==> hex_value(#[trigger] text@[k]) is Some,
            forall|k: int|
                0 <= k < i / 2 ==> #[trigger] out@[k] == (hex_value(text@[2 * k])->Some_0 * 16
                    + hex_value(text@[2 * k + 1])->Some_0) as u8,
        decreases n - i,
    {
        match (hex_digit(chars[i]), hex_digit(chars[i + 1])) {
            (Some(hi), Some(lo)) => {
                out.push(hi * 16 + lo);
            },
            _ => {
                assert(hex_value(text@[i as int]) is None || hex_value(text@[i + 1]) is None);
                return None;
            },
        }
        i += 2;
    }
    if n % 2 != 0 {
        return None;
    }
    assert(out@ =~= hex_decoded(text@)->Some_0);
    Some(out)
}

/// Encrypts and decrypts with one key.
#[derive(Clone, Debug)]
pub struct EncryptionManager {
    pub key: [u8; 32],
}

impl EncryptionManager {
    /// A manager for the key that is written in hexadecimal digits in
    /// `key_hex`; where none is given, for a new random key.
    pub fn new(key_hex: Option<&str>) -> (r: Result<EncryptionManager, EncryptionError>)
        ensures
            match key_hex {
                Some(text) => match hex_decoded(text@) {
                    Some(bytes) => if bytes.len() == KEY_LEN {
                        r is Ok && r->Ok_0.key@ == bytes
                    } else {
                        r == Err::<EncryptionManager, EncryptionError>(
                            EncryptionError::InvalidKeyLength,
                        )
                    },
                    None => r == Err::<EncryptionManager, EncryptionError>(
                        EncryptionError::InvalidKeyFormat,
                    ),
                },
                None => r is Ok,
            },
    {
        match key_hex {
            Some(text) => match decode_hex(text) {
                Some(bytes) => {
                    if bytes.len() != KEY_LEN {
                        return Err(EncryptionError::InvalidKeyLength);
                    }
                    let mut key: [u8; 32] = [0u8; 32];
                    let mut i: usize = 0;
                    while i < KEY_LEN
                        invariant
                            i <= KEY_LEN,
                            bytes.len() == KEY_LEN,
                            forall|k: int| 0 <= k < i ==> key@[k] == bytes@[k],
                        decreases KEY_LEN - i,
                    {
                        key[i] = bytes[i];
                        i += 1;
                    }
                    assert(key@ =~= bytes@);
                    Ok(EncryptionManager { key })
                },
                None => Err(EncryptionError::InvalidKeyFormat),
            },
            None => Ok(EncryptionManager { key: fresh_key() }),
        }
    }

    /// A manager for the given key.
    pub fn with_key(key_bytes: &[u8; 32]) -> (m: EncryptionManager)
        ensures
            m.key == *key_bytes,
    {
        EncryptionManager { key: *key_bytes }
    }

    /// Seals the plaintext under the given nonce and frames the result.
    pub fn encrypt_with_nonce(&self, nonce: &Vec<u8>, plaintext: &[u8]) -> (r: Result<
        Vec<u8>,
        EncryptionError,
    >)
        requires
            nonce@.len() == NONCE_LEN,
        ensures
            r is Ok <==> plaintext@.len() <= MAX_PLAINTEXT_LEN,
            r is Ok ==> r->Ok_0@ == framed(nonce@, aes_gcm_sealed(self.key@, nonce@, plaintext@)),
            r is Ok ==> encrypts_to(self.key@, plaintext@, r->Ok_0@),
            r is Err ==> r->Err_0 == EncryptionError::EncryptionFailed,
    {
        match seal(&self.key, nonce, plaintext) {
            Some(sealed) => {
                proof {
                    assert(sealed.len() <= usize::MAX);
                    lemma_unframe_framed(nonce@, sealed@);
                    lemma_auto_spec_u64_to_from_le_bytes();
                }
                Ok(frame(nonce, &sealed))
            },
            None => Err(EncryptionError::EncryptionFailed),
        }
    }

    /// Encrypts the plaintext under a fresh nonce: it succeeds for every
    /// plaintext within the limit of the cipher and for no other. What comes
    /// back decrypts to the plaintext under the same key.
    pub fn encrypt(&self, plaintext: &[u8]) -> (r: Result<Vec<u8>, EncryptionError>)
        ensures
            r is Ok <==> plaintext@.len() <= MAX_PLAINTEXT_LEN,
            r is Ok ==> encrypts_to(self.key@, plaintext@, r->Ok_0@),
            r is Err ==> r->Err_0 == EncryptionError::EncryptionFailed,
    {
        let nonce = fresh_nonce();
        self.encrypt_with_nonce(&nonce, plaintext)
    }

    /// Decrypts the bytes of an encrypted file.
    pub fn decrypt(&self, encrypted_bytes: &[u8]) -> (r: Result<Vec<u8>, EncryptionError>)
        ensures
            decrypts_to(self.key@, encrypted_bytes@, plaintext_of(r)),
            r is Err ==> (r->Err_0 == EncryptionError::Malformed <==> (unframed(encrypted_bytes@)
                is None || unframed(encrypted_bytes@)->Some_0.0.len() != NONCE_LEN)),
            r is Err ==> r->Err_0 == EncryptionError::Malformed || r->Err_0
                == EncryptionError::DecryptionFailed,
    {
        match unframe(encrypted_bytes) {
            Some((nonce, sealed)) => {
                if nonce.len() != NONCE_LEN {
                    return Err(EncryptionError::Malformed);
                }
                match unseal(&self.key, &nonce, sealed.as_slice()) {
                    Some(plaintext) => Ok(plaintext),
                    None => Err(EncryptionError::DecryptionFailed),
                }
            },
            None => Err(EncryptionError::Malformed),
        }
    }
}

/// Decrypting what was encrypted under the same key gives the plaintext
/// back: whatever file `encrypt` returns for a plaintext, `decrypt` returns
/// that plaintext for it.
pub proof fn lemma_decrypt_of_encrypt(
    key: Seq<u8>,
    plaintext: Seq<u8>,
    bytes: Seq<u8>,
    result: Option<Seq<u8>>,
)
    requires
        encrypts_to(key, plaintext, bytes),
        decrypts_to(key, bytes, result),
    ensures
        result == Some(plaintext),
{
}

/// Encrypting under two different nonces gives two different files, of
/// whatever plaintexts, and each file holds its nonce of 12 bytes behind
/// the 8 bytes of its length.
pub proof fn lemma_nonces_tell_files_apart(
    key: Seq<u8>,
    nonce1: Seq<u8>,
    nonce2: Seq<u8>,
    plaintext1: Seq<u8>,
    plaintext2: Seq<u8>,
)
    requires
        nonce1.len() == NONCE_LEN,
        nonce2.len() == NONCE_LEN,
        nonce1 != nonce2,
    ensures
        framed(nonce1, aes_gcm_sealed(key, nonce1, plaintext1)).subrange(8, 8 + NONCE_LEN) == nonce1,
        framed(nonce2, aes_gcm_sealed(key, nonce2, plaintext2)).subrange(8, 8 + NONCE_LEN) == nonce2,
        framed(nonce1, aes_gcm_sealed(key, nonce1, plaintext1)) != framed(
            nonce2,
            aes_gcm_sealed(key, nonce2, plaintext2),
        ),
{
    lemma_auto_spec_u64_to_from_le_bytes();
    let f1 = framed(nonce1, aes_gcm_sealed(key, nonce1, plaintext1));
    let f2 = framed(nonce2, aes_gcm_sealed(key, nonce2, plaintext2));
    assert(f1.subrange(8, 8 + NONCE_LEN) =~= nonce1);
    assert(f2.subrange(8, 8 + NONCE_LEN) =~= nonce2);
}

/// Encrypts the bytes of columnar files before they are stored.
#[derive(Debug)]
pub struct SecureParquetWriter {
    pub encryption_manager: EncryptionManager,
}

impl SecureParquetWriter {
    /// A writer for the key that is written in hexadecimal digits in
    /// `key_hex`; where none is given, for a new random key.
    pub fn new(key_hex: Option<&str>) -> (r: Result<SecureParquetWriter, EncryptionError>)
        ensures
            match key_hex {
                Some(text) => match hex_decoded(text@) {
                    Some(bytes) => if bytes.len() == KEY_LEN {
                        r is Ok && r->Ok_0.encryption_manager.key@ == bytes
                    } else {
                        r is Err && r->Err_0 == EncryptionError::InvalidKeyLength
                    },
                    None => r is Err && r->Err_0 == EncryptionError::InvalidKeyFormat,
                },
                None => r is Ok,
            },
    {
        match EncryptionManager::new(key_hex) {
            Ok(encryption_manager) => Ok(SecureParquetWriter { encryption_manager }),
            Err(e) => Err(e),
        }
    }

    /// The bytes of a file as they are stored.
    pub fn write_encrypted_parquet(&self, parquet_data: &[u8]) -> (r: Result<Vec<u8>, EncryptionError>)
        ensures
            r is Ok <==> parquet_data@.len() <= MAX_PLAINTEXT_LEN,
            r is Ok ==> encrypts_to(self.encryption_manager.key@, parquet_data@, r->Ok_0@),
            r is Err ==> r->Err_0 == EncryptionError::EncryptionFailed,
    {
        self.encryption_manager.encrypt(parquet_data)
    }

    /// The bytes of a stored file in the clear.
    pub fn read_encrypted_parquet(&self, stored: &[u8]) -> (r: Result<Vec<u8>, EncryptionError>)
        ensures
            decrypts_to(self.encryption_manager.key@, stored@, plaintext_of(r)),
    {
        self.encryption_manager.decrypt(stored)
    }
}

} // verus!
