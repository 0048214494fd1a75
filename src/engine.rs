//! The encrypting and decrypting pipelines, and what they are proved to satisfy.
use vstd::prelude::*;

use crate::bits::{lemma_reversed_bits_involutive, lemma_reversed_bits_rotr, lemma_rotl_rotr, reverse_bits, reversed_bits, rotate_left, rotate_right, rotl, rotr};
use crate::buffer::{lemma_reversed_involutive, lemma_rotated_left_mod, lemma_rotated_right_left, reverse_buffer, reversed, rotate_buffer_left, rotate_buffer_right, rotated_left, rotated_right};

verus! {

/// The direction of a transform.
#[derive(Clone, Copy, Debug, PartialEq, Eq, Structural)]
pub enum Mode {
    Encrypt,
    Decrypt,
}

/// The per-byte rotation that a seed gives: the seed modulo 8.
pub open spec fn byte_shift(seed: usize) -> u8 {
    (seed % 8) as u8
}

/// One byte of the first encrypting stage: rotate right, then reverse the bits.
pub open spec fn encrypt_byte(b: u8, seed: usize) -> u8 {
    reversed_bits(rotr(b, byte_shift(seed)))
}

/// One byte of the last decrypting stage: reverse the bits, then rotate left.
pub open spec fn decrypt_byte(b: u8, seed: usize) -> u8 {
    rotl(reversed_bits(b), byte_shift(seed))
}

/// The encrypted form of `s`: every byte transformed, the buffer reversed, then
/// rotated left by `seed mod len`.
pub open spec fn encrypted(s: Seq<u8>, seed: usize) -> Seq<u8> {
    rotated_left(reversed(s.map_values(|b: u8| encrypt_byte(b, seed))), seed as nat)
}

/// The decrypted form of `s`: rotated right by `seed mod len`, reversed, then
/// every byte transformed back.
pub open spec fn decrypted(s: Seq<u8>, seed: usize) -> Seq<u8> {
    reversed(rotated_right(s, seed as nat)).map_values(|b: u8| decrypt_byte(b, seed))
}

/// The result of the transform in direction `mode`.
pub open spec fn transformed(s: Seq<u8>, seed: usize, mode: Mode) -> Seq<u8> {
    match mode {
        Mode::Encrypt => encrypted(s, seed),
        Mode::Decrypt => decrypted(s, seed),
    }
}

/// Decrypting with a seed restores whatever was encrypted with that seed.
pub proof fn lemma_round_trip(b: Seq<u8>, seed: usize)
    ensures
        decrypted(encrypted(b, seed), seed) == b,
{
    let m = b.map_values(|x: u8| encrypt_byte(x, seed));
    lemma_rotated_right_left(reversed(m), seed as nat);
    lemma_reversed_involutive(m);
    let d = decrypted(encrypted(b, seed), seed);
    assert forall|i: int| 0 <= i < b.len() implies d[i] == b[i] by {
        lemma_rotl_rotr(b[i], byte_shift(seed));
        lemma_reversed_bits_involutive(rotr(b[i], byte_shift(seed)));
    }
    assert(d =~= b);
}

/// Both directions keep the length of the buffer.
pub proof fn lemma_length_preserved(b: Seq<u8>, seed: usize, mode: Mode)
    ensures
        transformed(b, seed, mode).len() == b.len(),
{
}

/// With the seed 0 no rotation takes place: encrypting reverses the bits of
/// every byte and then the order of the buffer.
pub proof fn lemma_zero_seed(b: Seq<u8>)
    ensures
        encrypted(b, 0) == reversed(b.map_values(|x: u8| reversed_bits(x))),
{
    let r = reversed(b.map_values(|x: u8| reversed_bits(x)));
    let e = encrypted(b, 0);
    assert forall|i: int| 0 <= i < b.len() implies e[i] == r[i] by {
        vstd::arithmetic::div_mod::lemma_small_mod(i as nat, b.len());
    }
    assert(e =~= r);
}

/// The empty buffer encrypts and decrypts to the empty buffer, whatever the seed.
pub proof fn lemma_empty(seed: usize)
    ensures
        encrypted(Seq::<u8>::empty(), seed) == Seq::<u8>::empty(),
        decrypted(Seq::<u8>::empty(), seed) == Seq::<u8>::empty(),
{
    assert(encrypted(Seq::<u8>::empty(), seed) =~= Seq::<u8>::empty());
    assert(decrypted(Seq::<u8>::empty(), seed) =~= Seq::<u8>::empty());
}

/// The seed acts through two separate moduli: the bits of each byte turn by
/// `seed mod 8`, and the whole buffer turns by `seed mod len`.
pub proof fn lemma_seed_stages(b: Seq<u8>, seed: usize)
    requires
        b.len() > 0,
    ensures
        encrypted(b, seed) == rotated_left(
            reversed(b.map_values(|x: u8| reversed_bits(rotr(x, (seed % 8) as u8)))),
            seed as nat % b.len(),
        ),
{
    let m = b.map_values(|x: u8| encrypt_byte(x, seed));
    lemma_rotated_left_mod(reversed(m), seed as nat);
    assert(m =~= b.map_values(|x: u8| reversed_bits(rotr(x, (seed % 8) as u8))));
}

/// Decrypting and encrypting with one seed are the same function: bit
/// reversal turns the right rotation of each byte into a left one, and buffer
/// reversal turns the left rotation of the buffer into a right one.
pub proof fn lemma_decrypted_is_encrypted(s: Seq<u8>, seed: usize)
    ensures
        decrypted(s, seed) == encrypted(s, seed),
{
    let n = s.len() as int;
    let d = decrypted(s, seed);
    let e = encrypted(s, seed);
    assert forall|i: int| 0 <= i < n implies d[i] == e[i] by {
        let j = (i + seed) % n;
        assert((n - 1 - i - seed) % n == n - 1 - j) by {
            vstd::arithmetic::div_mod::lemma_sub_mod_noop(n - 1, i + seed, n);
            vstd::arithmetic::div_mod::lemma_small_mod((n - 1) as nat, n as nat);
            vstd::arithmetic::div_mod::lemma_small_mod((n - 1 - j) as nat, n as nat);
        }
        lemma_reversed_bits_rotr(s[n - 1 - j], byte_shift(seed));
    }
    assert(d =~= e);
}

/// Encrypting twice with the same seed gives back the original buffer.
pub proof fn lemma_encrypt_twice(b: Seq<u8>, seed: usize)
    ensures
        encrypted(encrypted(b, seed), seed) == b,
{
    lemma_decrypted_is_encrypted(encrypted(b, seed), seed);
    lemma_round_trip(b, seed);
}

/// Rotates each byte right by `seed mod 8` and then reverses its bits, in place.
fn encrypt_each_byte(v: &mut Vec<u8>, seed: usize)
    ensures
        final(v)@ == old(v)@.map_values(|b: u8| encrypt_byte(b, seed)),
{
    let k = (seed % 8) as u8;
    let n = v.len();
    let mut i: usize = 0;
    while i < n
        invariant
            n == v.len(),
            n == old(v)@.len(),
            k == byte_shift(seed),
            i <= n,
            forall|j: int| 0 <= j < i ==> v@[j] == encrypt_byte(old(v)@[j], seed),
            forall|j: int| i <= j < n ==> v@[j] == old(v)@[j],
        decreases n - i,
    {
        let b = v[i];
        v[i] = reverse_bits(rotate_right(b, k));
        i = i + 1;
    }
    assert(v@ =~= old(v)@.map_values(|b: u8| encrypt_byte(b, seed)));
}

/// Reverses the bits of each byte and then rotates it left by `seed mod 8`, in place.
fn decrypt_each_byte(v: &mut Vec<u8>, seed: usize)
    ensures
        final(v)@ == old(v)@.map_values(|b: u8| decrypt_byte(b, seed)),
{
    let k = (seed % 8) as u8;
    let n = v.len();
    let mut i: usize = 0;
    while i < n
        invariant
            n == v.len(),
            n == old(v)@.len(),
            k == byte_shift(seed),
            i <= n,
            forall|j: int| 0 <= j < i ==> v@[j] == decrypt_byte(old(v)@[j], seed),
            forall|j: int| i <= j < n ==> v@[j] == old(v)@[j],
        decreases n - i,
    {
        let b = v[i];
        v[i] = rotate_left(reverse_bits(b), k);
        i = i + 1;
    }
    assert(v@ =~= old(v)@.map_values(|b: u8| decrypt_byte(b, seed)));
}

/// Encrypts `buffer` in place with `seed`.
pub fn encrypt(buffer: &mut Vec<u8>, seed: usize)
    ensures
        final(buffer)@ == encrypted(old(buffer)@, seed),
{
    encrypt_each_byte(buffer, seed);
    reverse_buffer(buffer);
    rotate_buffer_left(buffer, seed);
}

/// Decrypts `buffer` in place with `seed`, undoing [`encrypt`] with the same seed.
pub fn decrypt(buffer: &mut Vec<u8>, seed: usize)
    ensures
        final(buffer)@ == decrypted(old(buffer)@, seed),
{
    rotate_buffer_right(buffer, seed);
    reverse_buffer(buffer);
    decrypt_each_byte(buffer, seed);
}

/// Transforms `buffer` in place with `seed`, in the direction that `mode` selects.
pub fn transform(buffer: &mut Vec<u8>, seed: usize, mode: Mode)
    ensures
        final(buffer)@ == transformed(old(buffer)@, seed, mode),
        final(buffer)@.len() == old(buffer)@.len(),
{
    match mode {
        Mode::Encrypt => encrypt(buffer, seed),
        Mode::Decrypt => decrypt(buffer, seed),
    }
    proof {
        lemma_length_preserved(old(buffer)@, seed, mode);
    }
}

} // verus!
