use vstd::prelude::*;
use vstd::arithmetic::div_mod::{lemma_add_mod_noop, lemma_mul_mod_noop_left, lemma_mod_multiples_vanish, lemma_small_mod, lemma_fundamental_div_mod};

verus! {

/// `256^n`.
pub open spec fn byte_base(n: nat) -> nat
    decreases n,
{
    if n == 0 {
        1
    } else {
        256 * byte_base((n - 1) as nat)
    }
}

/// `2^n`.
pub open spec fn bit_base(n: nat) -> nat
    decreases n,
{
    if n == 0 {
        1
    } else {
        2 * bit_base((n - 1) as nat)
    }
}

/// The number whose little-endian base-256 digits are `s` (`s[0]` least significant).
pub open spec fn le_nat(s: Seq<u8>) -> nat
    decreases s.len(),
{
    if s.len() == 0 {
        0
    } else {
        s[0] as nat + 256 * le_nat(s.drop_first())
    }
}

/// The number whose big-endian base-256 digits are `s` (`s[0]` most significant).
pub open spec fn be_nat(s: Seq<u8>) -> nat
    decreases s.len(),
{
    if s.len() == 0 {
        0
    } else {
        be_nat(s.drop_last()) * 256 + s.last() as nat
    }
}

pub proof fn lemma_byte_base_pos(n: nat)
    ensures
        byte_base(n) > 0,
    decreases n,
{
    if n > 0 {
        lemma_byte_base_pos((n - 1) as nat);
    }
}

pub proof fn lemma_bit_base_pos(n: nat)
    ensures
        bit_base(n) > 0,
    decreases n,
{
    if n > 0 {
        lemma_bit_base_pos((n - 1) as nat);
    }
}

pub proof fn lemma_bit_base_monotone(a: nat, b: nat)
    requires
        a <= b,
    ensures
        bit_base(a) <= bit_base(b),
    decreases b,
{
    if a < b {
        lemma_bit_base_monotone(a, (b - 1) as nat);
        lemma_bit_base_pos((b - 1) as nat);
    }
}

pub proof fn lemma_bit_base_add(a: nat, b: nat)
    ensures
        bit_base(a + b) == bit_base(a) * bit_base(b),
    decreases b,
{
    if b > 0 {
        let b1 = (b - 1) as nat;
        lemma_bit_base_add(a, b1);
        let x = bit_base(a);
        let y = bit_base(b1);
        assert(a + b == (a + b1) + 1);
        assert(bit_base(a + b) == 2 * bit_base(a + b1));
        assert(bit_base(a + b1) == x * y);
        assert(bit_base(b) == 2 * y);
        assert(2 * (x * y) == x * (2 * y)) by (nonlinear_arith);
    } else {
        assert(bit_base(0) == 1);
        assert(bit_base(a) * 1 == bit_base(a));
    }
}

/// `le_nat` of a sequence of length `n` is below `256^n`.
pub proof fn lemma_le_nat_bound(s: Seq<u8>)
    ensures
        le_nat(s) < byte_base(s.len()),
    decreases s.len(),
{
    if s.len() > 0 {
        lemma_le_nat_bound(s.drop_first());
        let r = le_nat(s.drop_first());
        let b = byte_base((s.len() - 1) as nat);
        assert((s[0] as nat) + 256 * r < 256 * b) by (nonlinear_arith)
            requires
                r < b,
                s[0] < 256,
        ;
    }
}

/// `be_nat` of a sequence of length `n` is below `256^n`.
pub proof fn lemma_be_nat_bound(s: Seq<u8>)
    ensures
        be_nat(s) < byte_base(s.len()),
    decreases s.len(),
{
    if s.len() > 0 {
        lemma_be_nat_bound(s.drop_last());
        let r = be_nat(s.drop_last());
        let b = byte_base((s.len() - 1) as nat);
        assert(r * 256 + (s.last() as nat) < 256 * b) by (nonlinear_arith)
            requires
                r < b,
                s.last() < 256,
        ;
    }
}

/// `le_nat` split at index `i`: low digits plus `256^i` times high digits.
pub proof fn lemma_le_nat_split(s: Seq<u8>, i: int)
    requires
        0 <= i <= s.len(),
    ensures
        le_nat(s) == le_nat(s.take(i)) + byte_base(i as nat) * le_nat(s.skip(i)),
    decreases i,
{
    if i == 0 {
        assert(s.skip(0) =~= s);
        assert(s.take(0) =~= Seq::<u8>::empty());
        assert(le_nat(Seq::<u8>::empty()) == 0);
        assert(byte_base(0) == 1);
        assert(1 * le_nat(s) == le_nat(s));
    } else {
        lemma_le_nat_split(s.drop_first(), i - 1);
        assert(s.drop_first().take(i - 1) =~= s.take(i).drop_first());
        assert(s.drop_first().skip(i - 1) =~= s.skip(i));
        let a = le_nat(s.take(i).drop_first());
        let h = le_nat(s.skip(i));
        let b = byte_base((i - 1) as nat);
        assert(s.take(i)[0] == s[0]);
        assert(le_nat(s.take(i)) == (s[0] as nat) + 256 * a);
        assert(byte_base(i as nat) == 256 * b);
        assert(le_nat(s) == (s[0] as nat) + 256 * le_nat(s.drop_first()));
        assert(le_nat(s.drop_first()) == a + b * h);
        assert(256 * (a + b * h) == 256 * a + (256 * b) * h) by (nonlinear_arith);
    }
}

/// `2^128`, one more than the largest `u128`.
pub open spec fn u128_span() -> nat {
    0x1_0000_0000_0000_0000_0000_0000_0000_0000nat
}

/// Shifting a `u128` left by a byte and or-ing in a byte appends that byte to
/// the number, discarding what leaves the top.
pub proof fn lemma_shift_in_byte(r: u128, b: u8)
    ensures
        ((r << 8u128) | (b as u128)) as nat == ((r as nat) * 256 + (b as nat)) % u128_span(),
{
    let low: u128 = r % 0x1000000000000000000000000000000u128;
    assert(((r << 8u128) | (b as u128)) == low * 256u128 + (b as u128)) by (bit_vector)
        requires
            low == r % 0x1000000000000000000000000000000u128,
    ;
    let m: int = 0x1000000000000000000000000000000int;
    let q: int = (r as int) / m;
    lemma_fundamental_div_mod(r as int, m);
    assert((r as int) == m * q + (low as int));
    assert((r as int) * 256 + (b as int) == (m * 256) * q + ((low as int) * 256 + (b as int)))
        by (nonlinear_arith)
        requires
            (r as int) == m * q + (low as int),
    ;
    assert(q >= 0);
    lemma_mod_multiples_vanish(q, (low as int) * 256 + (b as int), m * 256);
    assert(m * 256 == u128_span());
    assert((low as int) * 256 + (b as int) < m * 256);
    lemma_small_mod(((low as int) * 256 + (b as int)) as nat, u128_span());
}

/// Appending a digit commutes with reduction modulo `2^128`.
pub proof fn lemma_append_digit_mod(x: nat, b: nat)
    ensures
        ((x % u128_span()) * 256 + b) % u128_span() == (x * 256 + b) % u128_span(),
{
    let m = u128_span() as int;
    lemma_mul_mod_noop_left(x as int, 256, m);
    lemma_add_mod_noop((x % u128_span()) as int * 256, b as int, m);
    lemma_add_mod_noop(x as int * 256, b as int, m);
    vstd::arithmetic::div_mod::lemma_mod_twice((x % u128_span()) as int * 256, m);
    assert(((x % u128_span()) as int * 256) % m == (x as int * 256) % m);
}

/// Comparing two equal-length digit strings from the top: if they agree above
/// position `k` and `a` has the smaller digit at `k`, then `a` is smaller.
pub proof fn lemma_le_nat_smaller_at(a: Seq<u8>, b: Seq<u8>, k: int)
    requires
        a.len() == b.len(),
        0 <= k < a.len(),
        a.skip(k + 1) == b.skip(k + 1),
        a[k] < b[k],
    ensures
        le_nat(a) < le_nat(b),
{
    lemma_le_nat_split(a, k);
    lemma_le_nat_split(b, k);
    lemma_le_nat_bound(a.take(k));
    let bk = byte_base(k as nat);
    let la = le_nat(a.take(k));
    let lb = le_nat(b.take(k));
    assert(a.skip(k).drop_first() =~= a.skip(k + 1));
    assert(b.skip(k).drop_first() =~= b.skip(k + 1));
    let h = le_nat(a.skip(k + 1));
    let ha = le_nat(a.skip(k));
    let hb = le_nat(b.skip(k));
    assert(ha == (a[k] as nat) + 256 * h);
    assert(hb == (b[k] as nat) + 256 * h);
    assert(ha + 1 <= hb);
    assert(la + bk * ha < bk * hb) by (nonlinear_arith)
        requires
            la < bk,
            ha + 1 <= hb,
    ;
}

/// The first `N` bytes of `s` as an array (`s` must hold exactly `N`).
pub fn slice_to_array<const N: usize>(s: &[u8]) -> (r: [u8; N])
    requires
        s@.len() == N,
    ensures
        r@ == s@,
{
    let mut arr: [u8; N] = vstd::array::array_fill_for_copy_types(0u8);
    let mut i: usize = 0;
    while i < N
        invariant
            s@.len() == N,
            i <= N,
            forall|j: int| 0 <= j < i ==> arr@[j] == s@[j],
        decreases N - i,
    {
        arr[i] = s[i];
        i = i + 1;
    }
    assert(arr@ =~= s@);
    arr
}

/// The bytes of an array as a vector.
pub fn array_to_vec<const N: usize>(a: &[u8; N]) -> (v: Vec<u8>)
    ensures
        v@ == a@,
{
    vstd::slice::slice_to_vec(a.as_slice())
}

} // verus!
