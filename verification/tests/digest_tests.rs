//! Tests for the hash-function capability traits, driven by the
//! development hashers.

use crypto_traits::dev::{checksum, DevCustomHash, DevHash, DevVarHash, DevXof};
use crypto_traits::digest::{
    CollisionResistance, CustomizedInit, ExtendableOutput, ExtendableOutputReset, FixedOutput,
    FixedOutputReset, Reset, Update, VarOutputCustomized, VariableOutput, VariableOutputReset,
    XofReader,
};

#[test]
fn checksum_exact_values() {
    assert_eq!(checksum(b""), 0);
    assert_eq!(checksum(b"\x05"), 5);
    // 97 * 31 + 98 = 3105, and 3105 mod 256 = 33
    assert_eq!(checksum(b"ab"), 33);
}

#[test]
fn update_and_chain_agree() {
    let mut a = DevHash::new();
    a.update(b"he");
    a.update(b"llo");
    let b = DevHash::new().chain(b"hello");
    assert_eq!(a.finalize_fixed(), b.finalize_fixed());
}

#[test]
fn finalize_fixed_exact_value() {
    assert_eq!(DevHash::output_size(), 4);
    let digest = DevHash::new().chain(b"ab").finalize_fixed();
    // checksum 33, length 2, their sum, and the checksum times 31 mod 256
    assert_eq!(digest, vec![33, 2, 35, 255]);
}

#[test]
fn finalize_into_writes_the_provided_buffer() {
    let mut out = vec![0u8; 4];
    DevHash::new().chain(b"ab").finalize_into(&mut out);
    assert_eq!(out, vec![33, 2, 35, 255]);
}

#[test]
fn finalize_fixed_reset_resets() {
    let mut hasher = DevHash::new();
    hasher.update(b"first");
    let first = hasher.finalize_fixed_reset();
    assert_eq!(first, DevHash::new().chain(b"first").finalize_fixed());
    hasher.update(b"second");
    let second = hasher.finalize_fixed_reset();
    assert_eq!(second, DevHash::new().chain(b"second").finalize_fixed());
}

#[test]
fn reset_clears_the_absorbed_stream() {
    let mut hasher = DevHash::new();
    hasher.update(b"something");
    hasher.reset();
    assert_eq!(hasher.finalize_fixed(), DevHash::new().finalize_fixed());
}

#[test]
fn xof_reads_are_consecutive() {
    let mut hasher = DevXof::new();
    hasher.update(b"\x05");
    let mut reader = hasher.finalize_xof();
    let first = reader.read_boxed(3);
    let second = reader.read_boxed(2);
    assert_eq!(first, vec![5, 6, 7]);
    assert_eq!(second, vec![8, 9]);
}

#[test]
fn xof_read_fills_the_whole_buffer() {
    let mut reader = DevXof::new().chain(&[40]).finalize_xof();
    let mut out = vec![0u8; 4];
    reader.read(&mut out);
    assert_eq!(out, vec![40, 41, 42, 43]);
}

#[test]
fn finalize_xof_into_fills_whole_buffer() {
    let hasher = DevXof::new().chain(&[40]);
    let mut out = vec![0u8; 4];
    hasher.finalize_xof_into(&mut out);
    assert_eq!(out, vec![40, 41, 42, 43]);
}

#[test]
fn finalize_boxed_and_reset_variants() {
    let mut hasher = DevXof::new().chain(&[9]);
    let out = hasher.finalize_boxed_reset(3);
    assert_eq!(out, vec![9, 10, 11]);
    // the hasher was reset, so the stream now starts at the empty
    // stream's checksum
    let out = hasher.finalize_boxed(2);
    assert_eq!(out, vec![0, 1]);
}

#[test]
fn variable_output_rejects_unsupported_sizes() {
    assert_eq!(DevVarHash::max_output_size(), 8);
    assert!(DevVarHash::new(0).is_err());
    assert!(DevVarHash::new(9).is_err());
    assert!(DevVarHash::new(1).is_ok());
    assert!(DevVarHash::new(8).is_ok());
}

#[test]
fn digest_variable_exact_value() {
    // checksum of "abc" is (33 * 31 + 99) mod 256 = 98
    let mut out = vec![0u8; 5];
    DevVarHash::digest_variable(b"abc", &mut out).unwrap();
    assert_eq!(out, vec![98, 99, 100, 101, 102]);
}

#[test]
fn digest_variable_bad_length_leaves_output_unchanged() {
    let mut out = vec![7u8; 9];
    assert!(DevVarHash::digest_variable(b"abc", &mut out).is_err());
    assert_eq!(out, vec![7u8; 9]);
}

#[test]
fn finalize_variable_wrong_buffer_length_errs() {
    let hasher = DevVarHash::new(4).unwrap();
    let mut out = vec![0u8; 3];
    assert!(hasher.finalize_variable(&mut out).is_err());
    assert_eq!(out, vec![0, 0, 0]);
}

#[test]
fn finalize_boxed_variants() {
    let mut hasher = DevVarHash::new(3).unwrap();
    hasher.update(b"a");
    assert_eq!(hasher.output_size(), 3);
    assert_eq!(hasher.clone().finalize_boxed(), vec![97, 98, 99]);
    assert_eq!(hasher.finalize_boxed_reset(), vec![97, 98, 99]);
    // after the reset nothing is absorbed, and the output size is kept
    assert_eq!(hasher.finalize_boxed(), vec![0, 1, 2]);
}

#[test]
fn customized_constructors_record_their_parameters() {
    let a = <DevCustomHash as CustomizedInit>::new_customized(b"domain");
    assert_eq!(a.customization(), b"domain");
    let b = <DevCustomHash as VarOutputCustomized>::new_customized(b"other", 7);
    assert_eq!(b.customization(), b"other");
    assert_eq!(b.output_size(), 7);
}

#[test]
fn size_error_messages_are_fixed() {
    assert_eq!(
        crypto_traits::digest::InvalidOutputSize.message(),
        "invalid output size"
    );
    assert_eq!(
        crypto_traits::digest::InvalidBufferSize.message(),
        "invalid buffer length"
    );
}

#[test]
fn collision_resistance_is_reported() {
    assert_eq!(DevHash::collision_resistance(), 2);
}
