//! Every variant must return the identical integer on every input.

use bytes_diff::bytes_diff_bitwise;
use bytes_diff::bytes_diff_chunked128;
use bytes_diff::bytes_diff_chunked16;
use bytes_diff::bytes_diff_chunked32;
use bytes_diff::bytes_diff_chunked64;
use bytes_diff::bytes_diff_chunked8;
use bytes_diff::bytes_diff_chunked_original;
use bytes_diff::bytes_diff_functional;
use bytes_diff::bytes_diff_functional_naive;
use bytes_diff::bytes_diff_hybrid_original;
use bytes_diff::bytes_diff_naive;
use bytes_diff::bytes_diff_original;
use bytes_diff::bytes_diff_original_128;

/// Runs every variant on the same pair and checks they all return `expected`.
fn assert_all_variants(a: &[u8], b: &[u8], expected: usize) {
    assert_eq!(bytes_diff_naive(a, b), expected);
    assert_eq!(bytes_diff_functional_naive(a, b), expected);
    assert_eq!(bytes_diff_functional(a, b), expected);
    assert_eq!(bytes_diff_original(a, b), expected);
    assert_eq!(bytes_diff_original_128(a, b), expected);
    assert_eq!(bytes_diff_bitwise(a, b), expected);
    assert_eq!(bytes_diff_chunked8(a, b), expected);
    assert_eq!(bytes_diff_chunked16(a, b), expected);
    assert_eq!(bytes_diff_chunked32(a, b), expected);
    assert_eq!(bytes_diff_chunked64(a, b), expected);
    assert_eq!(bytes_diff_chunked128(a, b), expected);
    assert_eq!(bytes_diff_chunked_original(a, b), expected);
    assert_eq!(bytes_diff_hybrid_original(a, b), expected);
}

#[test]
fn all_implementations_agree_simple() {
    let aaa: Vec<u8> = std::iter::repeat(10u8).take(4).collect();
    let bbb: Vec<u8> = std::iter::repeat(20u8).take(4).collect();
    let mut key1 = vec![];
    let mut key2 = vec![];
    key1.extend_from_slice(&aaa[..]);
    key1.extend_from_slice(&bbb[..]);
    key2.extend_from_slice(&aaa[1..]);
    key2.extend_from_slice(&bbb[1..]);
    let expected: usize = 3;
    assert_eq!(bytes_diff_naive(&key1, &key2), expected);
    assert_eq!(bytes_diff_functional_naive(&key1, &key2), expected);
    assert_eq!(bytes_diff_original(&key1, &key2), expected);
    assert_eq!(bytes_diff_original_128(&key1, &key2), expected);
    assert_eq!(bytes_diff_chunked8(&key1, &key2), expected);
    assert_eq!(bytes_diff_chunked16(&key1, &key2), expected);
    assert_eq!(bytes_diff_chunked32(&key1, &key2), expected);
    assert_eq!(bytes_diff_chunked64(&key1, &key2), expected);
    assert_eq!(bytes_diff_chunked128(&key1, &key2), expected);
    assert_eq!(bytes_diff_bitwise(&key1, &key2), expected);
    assert_eq!(bytes_diff_chunked_original(&key1, &key2), expected);
}

#[test]
fn learn_bitwise() {
    let a: usize = 0b0001;
    let b: usize = 0b0011;
    assert_eq!(a ^ a, 0b000);
    assert_eq!(a & b, 0b0001);
    let mut count: u32 = 0;
    let items = [0u8, 0, 0, 0, 10, 20];
    for item in items {
        let lz: u32 = item.leading_zeros() >> 3;
        count += lz;
    }

    assert_eq!(count, 4);
}

#[test]
fn agree_on_empty_and_single_byte() {
    assert_all_variants(&[], &[], 0);
    assert_all_variants(&[], &[1], 0);
    assert_all_variants(&[7], &[], 0);
    assert_all_variants(&[7], &[7], 1);
    assert_all_variants(&[7], &[8], 0);
}

#[test]
fn agree_on_sub_word_lengths() {
    assert_all_variants(&[1, 2, 3], &[1, 2, 3], 3);
    assert_all_variants(&[1, 2, 3], &[1, 2, 9], 2);
    assert_all_variants(&[1, 2, 3, 4, 5, 6, 7], &[1, 2, 3, 4, 5, 6, 7], 7);
    assert_all_variants(&[1, 2, 3, 4, 5, 6, 7], &[1, 2, 3, 4, 9, 6, 7], 4);
}

#[test]
fn agree_on_exact_word_lengths() {
    let a: Vec<u8> = (0..8).collect();
    let mut b = a.clone();
    assert_all_variants(&a, &b, 8);
    b[7] = 0xff;
    assert_all_variants(&a, &b, 7);

    let c: Vec<u8> = (0..16).collect();
    let mut d = c.clone();
    assert_all_variants(&c, &d, 16);
    d[15] = 0xff;
    assert_all_variants(&c, &d, 15);
}

#[test]
fn agree_on_multi_word_lengths() {
    let a: Vec<u8> = (0..200u16).map(|v| (v % 251) as u8).collect();
    let mut b = a.clone();
    assert_all_variants(&a, &b, 200);
    b[137] = b[137].wrapping_add(1);
    assert_all_variants(&a, &b, 137);
}

#[test]
fn agree_on_odd_lengths_and_length_mismatch() {
    let a: Vec<u8> = (0..669u16).map(|v| (v % 251) as u8).collect();
    let b: Vec<u8> = a[..500].to_vec();
    assert_all_variants(&a, &b, 500);
    assert_all_variants(&b, &a, 500);

    let mut c = a.clone();
    c[83] = c[83].wrapping_add(1);
    assert_all_variants(&a, &c, 83);
}

#[test]
fn agree_on_fully_disjoint_and_last_byte() {
    let a = vec![0u8; 64];
    let b = vec![1u8; 64];
    assert_all_variants(&a, &b, 0);

    let mut c = a.clone();
    c[63] = 1;
    assert_all_variants(&a, &c, 63);
}
