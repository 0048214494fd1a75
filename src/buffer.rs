//! Whole-buffer reversal and circular rotation.
use vstd::prelude::*;

verus! {

/// `s` in the opposite order.
pub open spec fn reversed(s: Seq<u8>) -> Seq<u8> {
    Seq::new(s.len(), |i: int| s[s.len() - 1 - i])
}

/// `s` rotated circularly left by `k mod len` positions: element `(i + k) mod len` comes to `i`.
pub open spec fn rotated_left(s: Seq<u8>, k: nat) -> Seq<u8> {
    Seq::new(s.len(), |i: int| s[(i + k) % (s.len() as int)])
}

/// `s` rotated circularly right by `k mod len` positions: element `i` goes to `(i + k) mod len`.
pub open spec fn rotated_right(s: Seq<u8>, k: nat) -> Seq<u8> {
    Seq::new(s.len(), |i: int| s[(i - k) % (s.len() as int)])
}

/// Reversal is its own inverse.
pub proof fn lemma_reversed_involutive(s: Seq<u8>)
    ensures
        reversed(reversed(s)) == s,
{
    assert(reversed(reversed(s)) =~= s);
}

/// Rotating right by `k` undoes rotating left by `k`.
pub proof fn lemma_rotated_right_left(s: Seq<u8>, k: nat)
    ensures
        rotated_right(rotated_left(s, k), k) == s,
{
    let n = s.len() as int;
    let l = rotated_left(s, k);
    let r = rotated_right(l, k);
    assert forall|i: int| 0 <= i < n implies r[i] == s[i] by {
        let j = (i - k) % n;
        assert(0 <= j < n);
        assert((j + k) % n == i) by {
            vstd::arithmetic::div_mod::lemma_add_mod_noop_right(k as int, i - k, n);
            vstd::arithmetic::div_mod::lemma_small_mod(i as nat, n as nat);
        }
    }
    assert(r =~= s);
}

/// Rotation by `k` is rotation by `k mod len`.
pub proof fn lemma_rotated_left_mod(s: Seq<u8>, k: nat)
    requires
        s.len() > 0,
    ensures
        rotated_left(s, k) == rotated_left(s, k % s.len()),
{
    let n = s.len() as int;
    assert forall|i: int| 0 <= i < n implies #[trigger] ((i + k) % n) == (i + (k % s.len()) as int) % n by {
        vstd::arithmetic::div_mod::lemma_add_mod_noop(i, k as int, n);
        vstd::arithmetic::div_mod::lemma_add_mod_noop(i, (k % s.len()) as int, n);
        vstd::arithmetic::div_mod::lemma_mod_twice(k as int, n);
    }
    assert(rotated_left(s, k) =~= rotated_left(s, k % s.len()));
}

/// Rotation right by `k` is rotation right by `k mod len`.
pub proof fn lemma_rotated_right_mod(s: Seq<u8>, k: nat)
    requires
        s.len() > 0,
    ensures
        rotated_right(s, k) == rotated_right(s, k % s.len()),
{
    let n = s.len() as int;
    assert forall|i: int| 0 <= i < n implies #[trigger] ((i - k) % n) == (i - (k % s.len()) as int)
        % n by {
        vstd::arithmetic::div_mod::lemma_sub_mod_noop(i, k as int, n);
        vstd::arithmetic::div_mod::lemma_sub_mod_noop(i, (k % s.len()) as int, n);
        vstd::arithmetic::div_mod::lemma_mod_twice(k as int, n);
    }
    assert(rotated_right(s, k) =~= rotated_right(s, k % s.len()));
}

/// Reverses the order of the bytes of `v` in place.
pub fn reverse_buffer(v: &mut Vec<u8>)
    ensures
        final(v)@ == reversed(old(v)@),
{
    let n = v.len();
    let mut i: usize = 0;
    while i < n / 2
        invariant
            n == v.len(),
            n == old(v)@.len(),
            i <= n / 2,
            forall|j: int| 0 <= j < i ==> v@[j] == old(v)@[n - 1 - j],
            forall|j: int| n - i <= j < n ==> v@[j] == old(v)@[n - 1 - j],
            forall|j: int| i <= j < n - i ==> v@[j] == old(v)@[j],
        decreases n / 2 - i,
    {
        let k = n - 1 - i;
        let a = v[i];
        let b = v[k];
        v[i] = b;
        v[k] = a;
        i = i + 1;
    }
    assert(v@ =~= reversed(old(v)@));
}

/// Rotates `v` circularly left by `k mod len` positions; an empty buffer stays empty.
pub fn rotate_buffer_left(v: &mut Vec<u8>, k: usize)
    ensures
        final(v)@ == rotated_left(old(v)@, k as nat),
{
    let n = v.len();
    if n == 0 {
        assert(v@ =~= rotated_left(old(v)@, k as nat));
        return;
    }
    let m = k % n;
    let mut out: Vec<u8> = Vec::with_capacity(n);
    let mut i: usize = 0;
    while i < n
        invariant
            n == v.len(),
            n > 0,
            m == k % n,
            i <= n,
            out@.len() == i,
            forall|j: int| 0 <= j < i ==> out@[j] == v@[(j + m) % (n as int)],
        decreases n - i,
    {
        let src = if i < n - m {
            i + m
        } else {
            i - (n - m)
        };
        assert(src == (i + m) % (n as int)) by {
            if i < n - m {
                vstd::arithmetic::div_mod::lemma_small_mod((i + m) as nat, n as nat);
            } else {
                vstd::arithmetic::div_mod::lemma_mod_sub_multiples_vanish((i + m) as int, n as int);
                vstd::arithmetic::div_mod::lemma_small_mod((i + m - n) as nat, n as nat);
            }
        }
        out.push(v[src]);
        i = i + 1;
    }
    proof {
        lemma_rotated_left_mod(v@, k as nat);
    }
    assert(out@ =~= rotated_left(v@, m as nat));
    *v = out;
}

/// Rotates `v` circularly right by `k mod len` positions; an empty buffer stays empty.
pub fn rotate_buffer_right(v: &mut Vec<u8>, k: usize)
    ensures
        final(v)@ == rotated_right(old(v)@, k as nat),
{
    let n = v.len();
    if n == 0 {
        assert(v@ =~= rotated_right(old(v)@, k as nat));
        return;
    }
    let m = k % n;
    let mut out: Vec<u8> = Vec::with_capacity(n);
    let mut i: usize = 0;
    while i < n
        invariant
            n == v.len(),
            n > 0,
            m == k % n,
            i <= n,
            out@.len() == i,
            forall|j: int| 0 <= j < i ==> out@[j] == v@[(j - m) % (n as int)],
        decreases n - i,
    {
        let src = if i >= m {
            i - m
        } else {
            i + (n - m)
        };
        assert(src == (i - m) % (n as int)) by {
            if i >= m {
                vstd::arithmetic::div_mod::lemma_small_mod((i - m) as nat, n as nat);
            } else {
                vstd::arithmetic::div_mod::lemma_mod_add_multiples_vanish(i - m, n as int);
                vstd::arithmetic::div_mod::lemma_small_mod((i - m + n) as nat, n as nat);
            }
        }
        out.push(v[src]);
        i = i + 1;
    }
    proof {
        lemma_rotated_right_mod(v@, k as nat);
    }
    assert(out@ =~= rotated_right(v@, m as nat));
    *v = out;
}

} // verus!
