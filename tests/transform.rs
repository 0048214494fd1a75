use bad_encrypter::bits::{reverse_bits, rotate_left, rotate_right};
use bad_encrypter::buffer::{reverse_buffer, rotate_buffer_left, rotate_buffer_right};
use bad_encrypter::engine::{decrypt, encrypt, transform, Mode};

fn encrypted(bytes: &[u8], seed: usize) -> Vec<u8> {
    let mut v = bytes.to_vec();
    encrypt(&mut v, seed);
    v
}

fn decrypted(bytes: &[u8], seed: usize) -> Vec<u8> {
    let mut v = bytes.to_vec();
    decrypt(&mut v, seed);
    v
}

#[test]
fn byte_rotations_are_circular() {
    assert_eq!(rotate_right(0x01, 1), 0x80);
    assert_eq!(rotate_right(0b1011_0001, 3), 0b0011_0110);
    assert_eq!(rotate_left(0x80, 1), 0x01);
    assert_eq!(rotate_left(0b1011_0001, 3), 0b1000_1101);
    assert_eq!(rotate_right(0xA5, 0), 0xA5);
    assert_eq!(rotate_left(0xA5, 0), 0xA5);
    for b in 0..=255u8 {
        for k in 0..8u8 {
            assert_eq!(rotate_right(b, k), b.rotate_right(k as u32));
            assert_eq!(rotate_left(b, k), b.rotate_left(k as u32));
        }
    }
}

#[test]
fn byte_bit_reversal() {
    assert_eq!(reverse_bits(0x01), 0x80);
    assert_eq!(reverse_bits(0b1100_1010), 0b0101_0011);
    assert_eq!(reverse_bits(0x00), 0x00);
    assert_eq!(reverse_bits(0xFF), 0xFF);
    for b in 0..=255u8 {
        assert_eq!(reverse_bits(b), b.reverse_bits());
    }
}

#[test]
fn buffer_reverse() {
    let mut v = vec![1u8, 2, 3, 4, 5];
    reverse_buffer(&mut v);
    assert_eq!(v, vec![5, 4, 3, 2, 1]);
    let mut w = vec![1u8, 2, 3, 4];
    reverse_buffer(&mut w);
    assert_eq!(w, vec![4, 3, 2, 1]);
    let mut e: Vec<u8> = Vec::new();
    reverse_buffer(&mut e);
    assert!(e.is_empty());
}

#[test]
fn buffer_rotation_takes_seed_modulo_length() {
    let mut v = vec![1u8, 2, 3, 4, 5];
    rotate_buffer_left(&mut v, 7);
    assert_eq!(v, vec![3, 4, 5, 1, 2]);
    let mut w = vec![1u8, 2, 3, 4, 5];
    rotate_buffer_right(&mut w, 7);
    assert_eq!(w, vec![4, 5, 1, 2, 3]);
    let mut x = vec![1u8, 2, 3];
    rotate_buffer_left(&mut x, 3);
    assert_eq!(x, vec![1, 2, 3]);
    let mut one = vec![9u8];
    rotate_buffer_left(&mut one, usize::MAX);
    assert_eq!(one, vec![9]);
    rotate_buffer_right(&mut one, 12345);
    assert_eq!(one, vec![9]);
    let mut e: Vec<u8> = Vec::new();
    rotate_buffer_left(&mut e, 5);
    rotate_buffer_right(&mut e, 5);
    assert!(e.is_empty());
}

#[test]
fn concrete_scenario() {
    let out = encrypted(&[0x01, 0x02, 0x03], 2);
    assert_eq!(out, vec![0x02, 0x03, 0x01]);
    assert_eq!(decrypted(&out, 2), vec![0x01, 0x02, 0x03]);
}

#[test]
fn round_trip() {
    let buffers: Vec<Vec<u8>> = vec![
        vec![],
        vec![0x00],
        vec![0xFF, 0x00],
        vec![0xDE, 0xAD, 0xBE, 0xEF],
        b"The quick brown fox jumps over the lazy dog".to_vec(),
        (0..=255u8).collect(),
    ];
    let seeds: [usize; 8] = [0, 1, 2, 7, 8, 13, 1000, usize::MAX];
    for b in &buffers {
        for &s in &seeds {
            assert_eq!(decrypted(&encrypted(b, s), s), *b);
        }
    }
}

#[test]
fn length_is_preserved() {
    for len in 0..20usize {
        let b: Vec<u8> = (0..len).map(|i| (i * 37) as u8).collect();
        for seed in [0usize, 3, 9, 21, usize::MAX] {
            for mode in [Mode::Encrypt, Mode::Decrypt] {
                let mut v = b.clone();
                transform(&mut v, seed, mode);
                assert_eq!(v.len(), len);
            }
        }
    }
}

#[test]
fn seed_moduli_act_at_separate_stages() {
    // 10 mod 8 == 2 for the bytes, but 10 mod 3 == 1 for the buffer.
    let b = [0x01u8, 0x02, 0x03];
    assert_eq!(encrypted(&b, 10), vec![0x01, 0x02, 0x03]);
    assert_eq!(encrypted(&b, 2), vec![0x02, 0x03, 0x01]);
    assert_ne!(encrypted(&b, 10), encrypted(&b, 10 % 8));
    // The same per-byte rotation with the same buffer rotation gives the same output.
    assert_eq!(encrypted(&b, 10), encrypted(&b, 10 % 24));
}

#[test]
fn zero_seed_reverses_bits_and_order() {
    let b = [0x01u8, 0x80, 0xF0];
    assert_eq!(encrypted(&b, 0), vec![0x0F, 0x01, 0x80]);
    let text = b"seed zero";
    let expected: Vec<u8> = text.iter().rev().map(|x| x.reverse_bits()).collect();
    assert_eq!(encrypted(text, 0), expected);
}

#[test]
fn empty_buffer_stays_empty() {
    for seed in [0usize, 1, 8, 255, usize::MAX] {
        assert!(encrypted(&[], seed).is_empty());
        assert!(decrypted(&[], seed).is_empty());
    }
}

#[test]
fn largest_seed() {
    // usize::MAX mod 8 == 7 and usize::MAX mod 5 == 0.
    let b = [0x41u8, 0x42, 0x43, 0x44, 0x45];
    let out = encrypted(&b, usize::MAX);
    assert_eq!(out, vec![0x51, 0x11, 0x61, 0x21, 0x41]);
    assert_eq!(decrypted(&out, usize::MAX), b.to_vec());
}

#[test]
fn other_seeds() {
    assert_eq!(encrypted(&[0xDE, 0xAD, 0xBE, 0xEF], 5), vec![0xAF, 0xB6, 0x6F, 0xFE]);
    assert_eq!(decrypted(&[0xAF, 0xB6, 0x6F, 0xFE], 5), vec![0xDE, 0xAD, 0xBE, 0xEF]);
    assert_eq!(encrypted(&[0x10, 0x20, 0x30, 0x40], 3), vec![0x40, 0x10, 0x60, 0x20]);
}

#[test]
fn encrypting_twice_restores_the_buffer() {
    let b = [0x10u8, 0x20, 0x30, 0x40];
    assert_eq!(encrypted(&encrypted(&b, 3), 3), b.to_vec());
    assert_eq!(decrypted(&b, 3), encrypted(&b, 3));
}

#[test]
fn transform_selects_direction() {
    let mut v = vec![0x01u8, 0x02, 0x03];
    transform(&mut v, 2, Mode::Encrypt);
    assert_eq!(v, vec![0x02, 0x03, 0x01]);
    transform(&mut v, 2, Mode::Decrypt);
    assert_eq!(v, vec![0x01, 0x02, 0x03]);
}
