//! Checks of the sealed envelope against independent recomputation with the
//! cipher, checksum and MAC crates themselves.

use aes::cipher::block_padding::NoPadding;
use aes::cipher::{BlockDecryptMut, KeyIvInit};
use crc::{Crc, CRC_32_ISO_HDLC};
use hmac::{Hmac, Mac};
use sha1::{Digest, Sha1};

use mailbomb::date::Date;
use mailbomb::payload::build_payload;
use mailbomb::types::{MacAddress, WiiId};

fn build_known() -> Vec<u8> {
    let mac = MacAddress::parse_str("aa-bb-cc-dd-ee-ff").unwrap();
    let date = Date::new(2022, 5, 2).unwrap();
    build_payload(&mac, &date, "4.3e").unwrap().bin
}

/// Decrypting the body with the all-zero key and the stored IV must give a
/// plaintext whose CRC-32 over [0x400, 0x540) matches the word at 0x540.
#[test]
fn crc_of_decrypted_body_header_region() {
    let bin = build_known();
    let key = [0u8; 16];
    let iv: [u8; 16] = bin[0xA0..0xB0].try_into().unwrap();

    // the tag at 0xB0 was patched in after encryption; restore the
    // ciphertext of that region is impossible, but it lies in the clear
    // attribute header region (< 0x400), so the body decrypts as a whole
    let mut body = bin[0x400..].to_vec();
    let cipher = cbc::Decryptor::<aes::Aes128>::new_from_slices(&key, &iv).unwrap();
    let plain = cipher.decrypt_padded_mut::<NoPadding>(&mut body).unwrap();

    let crc32 = Crc::<u32>::new(&CRC_32_ISO_HDLC);
    let expected = crc32.checksum(&plain[..0x140]);
    let stored = u32::from_be_bytes(plain[0x140..0x144].try_into().unwrap());
    assert_eq!(stored, expected);

    // the decrypted body header carries the magic word and the type flag
    assert_eq!(&plain[0x000..0x004], &0x5249_5F35u32.to_be_bytes());
    assert_eq!(&plain[0x00C..0x010], &[0, 0, 0, 1]);
}

/// Zeroing the 20 tag bytes at 0xB0 and recomputing HMAC-SHA1 over the
/// whole buffer with the identity's key tail must reproduce the stored tag.
#[test]
fn hmac_verifies_with_tag_region_zeroed() {
    let bin = build_known();
    let mac = MacAddress::parse_str("aa-bb-cc-dd-ee-ff").unwrap();
    let id = WiiId::from_mac(&mac);

    let mut presign = bin.clone();
    for b in &mut presign[0xB0..0xC4] {
        *b = 0;
    }
    let mut hm = Hmac::<Sha1>::new_from_slice(id.hmac_key()).unwrap();
    hm.update(&presign);
    let tag = hm.finalize().into_bytes();
    assert_eq!(&bin[0xB0..0xC4], tag.as_slice());
}

/// The identity is the SHA-1 of the address bytes with the fixed suffix,
/// split big-endian; the key tail is the rest of the digest.
#[test]
fn identity_matches_direct_sha1() {
    let mac = MacAddress::parse_str("aa-bb-cc-dd-ee-ff").unwrap();
    let id = WiiId::from_mac(&mac);
    let digest = Sha1::digest([0xaa, 0xbb, 0xcc, 0xdd, 0xee, 0xff, 0x75, 0x79, 0x79]);
    assert_eq!(id.upper, u32::from_be_bytes(digest[0..4].try_into().unwrap()));
    assert_eq!(id.lower, u32::from_be_bytes(digest[4..8].try_into().unwrap()));
    assert_eq!(id.upper, 0x2669460f);
    assert_eq!(id.lower, 0xada5ed77);
    assert_eq!(id.hmac_key(), &digest[8..20]);
    assert_eq!(id.hmac_key().len(), 12);
}
