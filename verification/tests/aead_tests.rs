//! Tests for the in-place AEAD transform, driven by the development
//! cipher.

use crypto_traits::aead::{
    decrypt_in_place, encrypt_in_place, generate_nonce_with_rng, try_generate_nonce_with_rng,
    Aead, AeadCore, AeadInOut, Payload, TagPosition,
};
use crypto_traits::buffer::{read_region, BoundedBuffer, Buffer};
use crypto_traits::dev::DevCipher;

const NONCE_LEN: usize = 4;
const TAG_LEN: usize = 4;

fn postfix_cipher() -> DevCipher {
    DevCipher { key: 0x5a, position: TagPosition::Postfix }
}

fn prefix_cipher() -> DevCipher {
    DevCipher { key: 0xc3, position: TagPosition::Prefix }
}

const NONCE: [u8; NONCE_LEN] = [7, 1, 9, 4];

fn read_all<B: Buffer>(buffer: &B) -> Vec<u8> {
    read_region(buffer, 0, buffer.len())
}

#[test]
fn cipher_reports_its_parameters() {
    let cipher = postfix_cipher();
    assert_eq!(cipher.nonce_size(), NONCE_LEN);
    assert_eq!(cipher.tag_size(), TAG_LEN);
    assert_eq!(cipher.tag_position(), TagPosition::Postfix);
    assert_eq!(prefix_cipher().tag_position(), TagPosition::Prefix);
}

#[test]
fn round_trip_postfix() {
    let cipher = postfix_cipher();
    let msg = b"attack at dawn";
    let aad = b"header";
    let combined = cipher.encrypt(&NONCE, Payload { msg, aad }).unwrap();
    assert_eq!(combined.len(), msg.len() + TAG_LEN);
    let recovered = cipher.decrypt(&NONCE, Payload { msg: &combined, aad }).unwrap();
    assert_eq!(recovered, msg);
}

#[test]
fn round_trip_prefix() {
    let cipher = prefix_cipher();
    let msg = b"attack at dawn";
    let aad = b"header";
    let combined = cipher.encrypt(&NONCE, Payload { msg, aad }).unwrap();
    assert_eq!(combined.len(), msg.len() + TAG_LEN);
    let recovered = cipher.decrypt(&NONCE, Payload { msg: &combined, aad }).unwrap();
    assert_eq!(recovered, msg);
}

#[test]
fn encrypt_exact_bytes() {
    // ciphertext is the message XORed with the key; the tag holds the
    // rolling checksums of ciphertext, AAD and nonce-plus-key, and the
    // ciphertext length
    let cipher = postfix_cipher();
    let combined = cipher.encrypt(&NONCE, Payload { msg: b"ab", aad: b"" }).unwrap();
    assert_eq!(combined, vec![0x3b, 0x38, 93, 0, 207, 2]);
    let recovered = cipher.decrypt(&NONCE, Payload { msg: &combined, aad: b"" }).unwrap();
    assert_eq!(recovered, b"ab");
}

#[test]
fn round_trip_empty_message() {
    for cipher in [postfix_cipher(), prefix_cipher()] {
        let combined = cipher.encrypt(&NONCE, Payload { msg: b"", aad: b"" }).unwrap();
        assert_eq!(combined.len(), TAG_LEN);
        let recovered = cipher.decrypt(&NONCE, Payload { msg: &combined, aad: b"" }).unwrap();
        assert!(recovered.is_empty());
    }
}

#[test]
fn tamper_any_bit_fails() {
    for cipher in [postfix_cipher(), prefix_cipher()] {
        let msg = b"tamper me";
        let aad = b"aad";
        let combined = cipher.encrypt(&NONCE, Payload { msg, aad }).unwrap();
        for byte in 0..combined.len() {
            for bit in 0..8 {
                let mut damaged = combined.clone();
                damaged[byte] ^= 1 << bit;
                let r = cipher.decrypt(&NONCE, Payload { msg: &damaged, aad });
                assert!(r.is_err(), "flip of byte {byte} bit {bit} was accepted");
            }
        }
    }
}

#[test]
fn aad_binding() {
    for cipher in [postfix_cipher(), prefix_cipher()] {
        let msg = b"bound to aad";
        let combined = cipher.encrypt(&NONCE, Payload { msg, aad: b"right" }).unwrap();
        assert!(cipher.decrypt(&NONCE, Payload { msg: &combined, aad: b"wrong" }).is_err());
        assert!(cipher.decrypt(&NONCE, Payload { msg: &combined, aad: b"" }).is_err());
        assert!(cipher.decrypt(&NONCE, Payload { msg: &combined, aad: b"right" }).is_ok());
    }
}

#[test]
fn wrong_nonce_fails() {
    let cipher = postfix_cipher();
    let msg = b"nonce matters";
    let combined = cipher.encrypt(&NONCE, Payload { msg, aad: b"" }).unwrap();
    let other_nonce = [7, 1, 9, 5];
    assert!(cipher.decrypt(&other_nonce, Payload { msg: &combined, aad: b"" }).is_err());
}

#[test]
fn capacity_exactly_message_length_fails() {
    for cipher in [postfix_cipher(), prefix_cipher()] {
        let msg = b"no room for a tag";
        let mut buffer = BoundedBuffer::new(msg.len());
        buffer.extend_from_slice(msg).unwrap();
        assert!(encrypt_in_place(&cipher, &NONCE, b"", &mut buffer).is_err());
        // the failed encryption left the plaintext in place
        assert_eq!(read_all(&buffer), msg);
    }
}

#[test]
fn capacity_message_plus_tag_suffices() {
    for cipher in [postfix_cipher(), prefix_cipher()] {
        let msg = b"just enough room";
        let mut buffer = BoundedBuffer::new(msg.len() + TAG_LEN);
        buffer.extend_from_slice(msg).unwrap();
        assert!(encrypt_in_place(&cipher, &NONCE, b"", &mut buffer).is_ok());
        assert_eq!(buffer.len(), msg.len() + TAG_LEN);
        let mut decrypted = read_all(&buffer);
        assert!(decrypt_in_place(&cipher, &NONCE, b"", &mut decrypted).is_ok());
        assert_eq!(decrypted, msg);
    }
}

#[test]
fn decrypt_shorter_than_tag_fails() {
    for cipher in [postfix_cipher(), prefix_cipher()] {
        let mut buffer: Vec<u8> = vec![1, 2, 3];
        assert!(decrypt_in_place(&cipher, &NONCE, b"", &mut buffer).is_err());
        assert_eq!(buffer, vec![1, 2, 3]);
    }
}

#[test]
fn layout_postfix_is_ciphertext_then_tag() {
    let cipher = postfix_cipher();
    let msg = b"layout check";
    let aad = b"meta";
    let combined = cipher.encrypt(&NONCE, Payload { msg, aad }).unwrap();

    let mut detached = msg.to_vec();
    let tag = cipher.encrypt_inout_detached(&NONCE, aad, &mut detached);
    let mut expected = detached.clone();
    expected.extend_from_slice(&tag);
    assert_eq!(combined, expected);
}

#[test]
fn layout_prefix_is_tag_then_ciphertext() {
    let cipher = prefix_cipher();
    let msg = b"layout check";
    let aad = b"meta";
    let combined = cipher.encrypt(&NONCE, Payload { msg, aad }).unwrap();

    let mut detached = msg.to_vec();
    let tag = cipher.encrypt_inout_detached(&NONCE, aad, &mut detached);
    let mut expected = tag.clone();
    expected.extend_from_slice(&detached);
    assert_eq!(combined, expected);
}

#[test]
fn detached_operations_round_trip() {
    let cipher = prefix_cipher();
    let msg = b"detached";
    let mut buffer = msg.to_vec();
    let tag = cipher.encrypt_inout_detached(&NONCE, b"ad", &mut buffer);
    assert_ne!(buffer, msg.to_vec());
    assert!(cipher.decrypt_inout_detached(&NONCE, b"ad", &mut buffer, &tag).is_ok());
    assert_eq!(buffer, msg.to_vec());
}

#[test]
fn vec_and_bytes_mut_buffers_agree() {
    let cipher = prefix_cipher();
    let msg = b"same result in any buffer";
    let aad = b"aad";

    let mut vec_buffer: Vec<u8> = msg.to_vec();
    encrypt_in_place(&cipher, &NONCE, aad, &mut vec_buffer).unwrap();

    let mut bytes_buffer = bytes::BytesMut::new();
    Buffer::extend_from_slice(&mut bytes_buffer, msg).unwrap();
    encrypt_in_place(&cipher, &NONCE, aad, &mut bytes_buffer).unwrap();
    assert_eq!(&bytes_buffer[..], &vec_buffer[..]);

    decrypt_in_place(&cipher, &NONCE, aad, &mut bytes_buffer).unwrap();
    assert_eq!(&bytes_buffer[..], msg);
}

#[test]
fn error_message_is_opaque() {
    assert_eq!(crypto_traits::aead::Error.message(), "aead::Error");
}

#[test]
fn payload_from_message_has_no_aad() {
    let payload = Payload::from_msg(b"plain");
    assert_eq!(payload.msg, b"plain");
    assert!(payload.aad.is_empty());
}

struct CountingRng {
    next: u8,
}

impl rand_core::RngCore for CountingRng {
    fn next_u32(&mut self) -> u32 {
        let mut bytes = [0u8; 4];
        self.fill_bytes(&mut bytes);
        u32::from_le_bytes(bytes)
    }

    fn next_u64(&mut self) -> u64 {
        let mut bytes = [0u8; 8];
        self.fill_bytes(&mut bytes);
        u64::from_le_bytes(bytes)
    }

    fn fill_bytes(&mut self, dst: &mut [u8]) {
        for b in dst.iter_mut() {
            *b = self.next;
            self.next = self.next.wrapping_add(1);
        }
    }
}

impl rand_core::CryptoRng for CountingRng {}

#[derive(Debug)]
struct TestRngError;

impl core::fmt::Display for TestRngError {
    fn fmt(&self, f: &mut core::fmt::Formatter<'_>) -> core::fmt::Result {
        f.write_str("rng failure")
    }
}

struct FlakyRng {
    inner: CountingRng,
    fail: bool,
}

impl rand_core::TryRngCore for FlakyRng {
    type Error = TestRngError;

    fn try_next_u32(&mut self) -> Result<u32, Self::Error> {
        Ok(rand_core::RngCore::next_u32(&mut self.inner))
    }

    fn try_next_u64(&mut self) -> Result<u64, Self::Error> {
        Ok(rand_core::RngCore::next_u64(&mut self.inner))
    }

    fn try_fill_bytes(&mut self, dst: &mut [u8]) -> Result<(), Self::Error> {
        if self.fail {
            return Err(TestRngError);
        }
        rand_core::RngCore::fill_bytes(&mut self.inner, dst);
        Ok(())
    }
}

impl rand_core::TryCryptoRng for FlakyRng {}

#[test]
fn generated_nonce_comes_from_the_rng() {
    let mut rng = CountingRng { next: 10 };
    let nonce = generate_nonce_with_rng(&mut rng, 6);
    assert_eq!(nonce, vec![10, 11, 12, 13, 14, 15]);
    let nonce = generate_nonce_with_rng(&mut rng, 3);
    assert_eq!(nonce, vec![16, 17, 18]);
    assert!(generate_nonce_with_rng(&mut rng, 0).is_empty());
}

#[test]
fn fallible_nonce_generation_reports_failure_opaquely() {
    let mut rng = FlakyRng { inner: CountingRng { next: 20 }, fail: false };
    assert_eq!(try_generate_nonce_with_rng(&mut rng, 4).unwrap(), vec![20, 21, 22, 23]);
    let mut rng = FlakyRng { inner: CountingRng { next: 20 }, fail: true };
    assert!(try_generate_nonce_with_rng(&mut rng, 4).is_err());
}
