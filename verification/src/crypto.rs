//! Trusted boundary to the cryptographic crates: SHA-1, HMAC-SHA1,
//! CRC-32 (ISO-HDLC) and AES-128-CBC. Each outside call sits in one
//! `external_body` wrapper; its result is named by an uninterpreted spec
//! function, since the algorithms themselves are pure functions of their
//! inputs that take pages to state.

use aes::cipher::block_padding::NoPadding;
use aes::cipher::{BlockEncryptMut, KeyIvInit};
use hmac::Mac;
use sha1::Digest;
use vstd::prelude::*;

use crate::error::BuildPayloadError;

verus! {

/// The SHA-1 digest of `data`: 20 bytes, a function of the input alone.
pub uninterp spec fn sha1_of(data: Seq<u8>) -> Seq<u8>;

/// The HMAC-SHA1 tag over `data` under `key`: 20 bytes, a function of the
/// two inputs alone.
pub uninterp spec fn hmac_sha1_of(key: Seq<u8>, data: Seq<u8>) -> Seq<u8>;

/// The CRC-32 (ISO-HDLC polynomial) of `data`.
pub uninterp spec fn crc32_of(data: Seq<u8>) -> u32;

/// The AES-128-CBC encryption of `data` (block-aligned, no padding) under
/// `key` and `iv`; as long as the plaintext.
pub uninterp spec fn aes128_cbc_of(key: Seq<u8>, iv: Seq<u8>, data: Seq<u8>) -> Seq<u8>;

/// Relies on `sha1::Sha1` through `Digest::digest`: the 160-bit (20-byte)
/// SHA-1 digest of the input, determined by the input bytes alone.
#[verifier::external_body]
pub fn sha1_digest(data: &[u8]) -> (r: Vec<u8>)
    ensures
        r@ == sha1_of(data@),
        r@.len() == 20,
{
    sha1::Sha1::digest(data).to_vec()
}

/// Relies on `hmac::Hmac::<Sha1>`: `new_from_slice` accepts keys of any
/// length (long keys are hashed, short ones padded), so it cannot fail, and
/// the finalized tag is one SHA-1 block: 20 bytes, determined by key and
/// message alone.
#[verifier::external_body]
pub fn hmac_sha1(key: &[u8], data: &[u8]) -> (r: Result<Vec<u8>, BuildPayloadError>)
    ensures
        r is Ok,
        r matches Ok(t) ==> t@ == hmac_sha1_of(key@, data@) && t@.len() == 20,
{
    let mut mac = match hmac::Hmac::<sha1::Sha1>::new_from_slice(key) {
        Ok(m) => m,
        Err(_) => {
            return Err(BuildPayloadError::CryptoInvalidLength);
        },
    };
    mac.update(data);
    Ok(mac.finalize().into_bytes().to_vec())
}

/// Relies on `crc::Crc::<u32>` with the `CRC_32_ISO_HDLC` parameters: the
/// checksum is determined by the input bytes alone.
#[verifier::external_body]
pub fn crc32_iso_hdlc(data: &[u8]) -> (r: u32)
    ensures
        r == crc32_of(data@),
{
    crc::Crc::<u32>::new(&crc::CRC_32_ISO_HDLC).checksum(data)
}

/// Relies on `cbc::Encryptor<aes::Aes128>`: `new_from_slices` fails exactly
/// when the key or IV is not 16 bytes, and `encrypt_padded_mut::<NoPadding>`
/// fails exactly when the message length is not a multiple of the 16-byte
/// block; otherwise the ciphertext is as long as the plaintext and
/// determined by key, IV and plaintext alone.
#[verifier::external_body]
pub fn aes128_cbc_encrypt(key: &[u8], iv: &[u8], data: &[u8]) -> (r: Result<
    Vec<u8>,
    BuildPayloadError,
>)
    ensures
        key@.len() == 16 && iv@.len() == 16 && data@.len() % 16 == 0 ==> r is Ok,
        r matches Ok(c) ==> c@ == aes128_cbc_of(key@, iv@, data@) && c@.len() == data@.len(),
{
    let cipher = match cbc::Encryptor::<aes::Aes128>::new_from_slices(key, iv) {
        Ok(c) => c,
        Err(_) => {
            return Err(BuildPayloadError::CryptoInvalidLength);
        },
    };
    let mut buf = data.to_vec();
    let n = buf.len();
    match cipher.encrypt_padded_mut::<NoPadding>(&mut buf, n) {
        Ok(_) => Ok(buf),
        Err(_) => Err(BuildPayloadError::CryptoPadError),
    }
}

} // verus!
