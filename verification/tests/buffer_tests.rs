//! Tests for the buffer capability and the legacy forwarding layer.

use crypto_traits::aead::{Aead, AeadInOut, Payload, TagPosition};
use crypto_traits::buffer::{read_region, write_region, zero_bytes, BoundedBuffer, Buffer};
use crypto_traits::dev::DevCipher;
use crypto_traits::legacy;

#[test]
fn bounded_buffer_respects_its_capacity() {
    let mut buffer = BoundedBuffer::new(5);
    assert!(buffer.is_empty());
    assert!(buffer.extend_from_slice(b"abc").is_ok());
    assert_eq!(buffer.len(), 3);
    assert!(!buffer.is_empty());
    assert!(buffer.extend_from_slice(b"de").is_ok());
    assert_eq!(buffer.len(), 5);
    assert!(buffer.extend_from_slice(b"f").is_err());
    assert_eq!(buffer.len(), 5);
    assert!(buffer.extend_from_slice(b"").is_ok());
}

#[test]
fn truncate_shortens_and_ignores_larger_lengths() {
    let mut buffer: Vec<u8> = b"abcdef".to_vec();
    Buffer::truncate(&mut buffer, 9);
    assert_eq!(buffer, b"abcdef".to_vec());
    Buffer::truncate(&mut buffer, 2);
    assert_eq!(buffer, b"ab".to_vec());
    Buffer::truncate(&mut buffer, 0);
    assert!(buffer.is_empty());
}

#[test]
fn byte_access_reads_and_writes_in_place() {
    let mut buffer = BoundedBuffer::new(4);
    buffer.extend_from_slice(b"wxyz").unwrap();
    assert_eq!(buffer.get_byte(0), b'w');
    assert_eq!(buffer.get_byte(3), b'z');
    buffer.set_byte(1, b'!');
    assert_eq!(read_region(&buffer, 0, 4), b"w!yz".to_vec());
}

#[test]
fn regions_copy_the_requested_bytes() {
    let mut buffer: Vec<u8> = b"0123456789".to_vec();
    assert_eq!(read_region(&buffer, 3, 4), b"3456".to_vec());
    assert_eq!(read_region(&buffer, 0, 0), Vec::<u8>::new());
    write_region(&mut buffer, 2, b"AB");
    assert_eq!(buffer, b"01AB456789".to_vec());
    write_region(&mut buffer, 8, b"YZ");
    assert_eq!(buffer, b"01AB4567YZ".to_vec());
}

#[test]
fn zero_bytes_is_all_zero() {
    assert_eq!(zero_bytes(0), Vec::<u8>::new());
    assert_eq!(zero_bytes(3), vec![0u8, 0, 0]);
}

#[test]
fn bytes_mut_behaves_like_a_growable_buffer() {
    let mut buffer = bytes::BytesMut::new();
    assert!(Buffer::is_empty(&buffer));
    Buffer::extend_from_slice(&mut buffer, b"hello").unwrap();
    assert_eq!(Buffer::len(&buffer), 5);
    assert_eq!(buffer.get_byte(1), b'e');
    buffer.set_byte(0, b'y');
    Buffer::truncate(&mut buffer, 4);
    assert_eq!(read_region(&buffer, 0, 4), b"yell".to_vec());
    Buffer::truncate(&mut buffer, 100);
    assert_eq!(Buffer::len(&buffer), 4);
}

#[test]
fn legacy_entry_points_forward() {
    let cipher = DevCipher { key: 0x11, position: TagPosition::Postfix };
    let nonce = [3u8, 1, 4, 1];
    let msg = b"forwarded";
    let aad = b"meta";

    // the legacy whole-buffer entry points produce the same bytes as the
    // primary ones
    let expected = cipher.encrypt(&nonce, Payload { msg, aad }).unwrap();
    let mut buffer: Vec<u8> = msg.to_vec();
    legacy::encrypt_in_place(&cipher, &nonce, aad, &mut buffer).unwrap();
    assert_eq!(buffer, expected);
    legacy::decrypt_in_place(&cipher, &nonce, aad, &mut buffer).unwrap();
    assert_eq!(buffer, msg.to_vec());

    // and the legacy detached entry points match the detached operations
    let mut detached: Vec<u8> = msg.to_vec();
    let tag = legacy::encrypt_in_place_detached(&cipher, &nonce, aad, &mut detached);
    let mut reference: Vec<u8> = msg.to_vec();
    let reference_tag = cipher.encrypt_inout_detached(&nonce, aad, &mut reference);
    assert_eq!(detached, reference);
    assert_eq!(tag, reference_tag);
    assert!(legacy::decrypt_in_place_detached(&cipher, &nonce, aad, &mut detached, &tag).is_ok());
    assert_eq!(detached, msg.to_vec());
    let mut tampered_tag = reference_tag.clone();
    tampered_tag[0] ^= 1;
    let mut ct: Vec<u8> = reference.clone();
    assert!(
        legacy::decrypt_in_place_detached(&cipher, &nonce, aad, &mut ct, &tampered_tag).is_err()
    );
}
