//! Helpers for packing vectors of bits into scalar field elements.

use vstd::prelude::*;

use crate::bytes::{bit_base, lemma_bit_base_add, lemma_bit_base_monotone, lemma_bit_base_pos};
use crate::constraint::{
    lc_value, ConstraintSystem, ConstraintView, Index, LinearCombination, SynthesisError, SystemCall,
};
use crate::field::{scalar_modulus, Scalar};
use crate::recorder::{
    constraint_holds, lc_eval, lemma_eval_unit, lemma_holds_extends_inputs, lemma_recorded_assignments,
    RecordingSystem,
};

verus! {

/// Bit `i` (0 = least significant) of the byte `v`.
pub open spec fn byte_bit(v: u8, i: nat) -> bool {
    ((v as nat) / bit_base(i)) % 2 == 1
}

/// The number whose little-endian binary digits are `s` (`s[0]` least significant).
pub open spec fn bits_le_nat(s: Seq<bool>) -> nat
    decreases s.len(),
{
    if s.len() == 0 {
        0
    } else {
        bits_le_nat(s.drop_last()) + if s.last() {
            bit_base((s.len() - 1) as nat)
        } else {
            0
        }
    }
}

/// The number of bits packed into one field element: `Scalar::CAPACITY`.
pub open spec fn capacity() -> nat {
    254
}

/// The end of chunk `k` when `n` bits are cut into chunks of `capacity()` bits.
pub open spec fn chunk_end(k: nat, n: nat) -> nat {
    if k * capacity() + capacity() <= n {
        k * capacity() + capacity()
    } else {
        n
    }
}

/// `<bls12_381::Scalar as ff::PrimeField>::CAPACITY`: the number of bits that
/// fit below the field's modulus.
#[verifier::external_body]
fn scalar_capacity() -> (c: u32)
    ensures
        c == capacity(),
{
    <bls12_381::Scalar as ff::PrimeField>::CAPACITY
}

proof fn lemma_bits_le_nat_bound(s: Seq<bool>)
    ensures
        bits_le_nat(s) < bit_base(s.len()),
    decreases s.len(),
{
    if s.len() > 0 {
        lemma_bits_le_nat_bound(s.drop_last());
        lemma_bit_base_pos((s.len() - 1) as nat);
    }
}

proof fn lemma_capacity_fits()
    ensures
        bit_base(capacity()) < scalar_modulus(),
{
    assert(bit_base(30) == 1073741824) by {
        reveal_with_fuel(bit_base, 31);
    }
    assert(bit_base(32) == 4294967296) by {
        reveal_with_fuel(bit_base, 33);
    }
    lemma_bit_base_add(32, 32);
    assert(bit_base(64) == 18446744073709551616nat);
    lemma_bit_base_add(64, 64);
    assert(bit_base(128) == 340282366920938463463374607431768211456nat);
    lemma_bit_base_add(128, 64);
    assert(bit_base(192) == 6277101735386680763835789423207666416102355444464034512896nat);
    lemma_bit_base_add(32, 30);
    assert(bit_base(62) == 4611686018427387904nat);
    lemma_bit_base_add(192, 62);
    assert(bit_base(254) == 28948022309329048855892746252171976963317496166410141009864396001978282409984nat);
}

/// Bit `i` of `v` is what `(v >> i) & 1 == 1` computes.
proof fn lemma_shift_bit(v: u8, i: u8)
    requires
        i < 8,
    ensures
        ((v >> i) & 1u8 == 1u8) == byte_bit(v, i as nat),
{
    assert(bit_base(8) == 256) by {
        reveal_with_fuel(bit_base, 9);
    }
    lemma_bit_base_monotone(i as nat, 8);
    lemma_bit_base_pos(i as nat);
    let p = bit_base(i as nat);
    assert(((v >> i) & 1u8) == ((v >> i) % 2u8)) by (bit_vector);
    vstd::bits::lemma_u8_shr_is_div(v, i);
    vstd::arithmetic::power2::lemma_pow2(i as nat);
    assert(vstd::arithmetic::power2::pow2(i as nat) == p) by {
        lemma_pow2_is_bit_base(i as nat);
    }
}

proof fn lemma_pow2_is_bit_base(n: nat)
    ensures
        vstd::arithmetic::power2::pow2(n) == bit_base(n),
    decreases n,
{
    if n == 0 {
        vstd::arithmetic::power2::lemma2_to64();
    } else {
        lemma_pow2_is_bit_base((n - 1) as nat);
        vstd::arithmetic::power2::lemma_pow2_unfold(n);
    }
}

/// `bits` are the bits of `bytes`, eight per byte, most significant bit of
/// each byte first.
pub open spec fn bits_msb_first(bytes: Seq<u8>, bits: Seq<bool>) -> bool {
    &&& bits.len() == bytes.len() * 8
    &&& forall|k: int, j: int|
        0 <= k < bytes.len() && 0 <= j < 8 ==> #[trigger] bits[k * 8 + j] == byte_bit(
            bytes[k],
            (7 - j) as nat,
        )
}

/// `bits` are the bits of `bytes`, eight per byte, least significant bit of
/// each byte first.
pub open spec fn bits_lsb_first(bytes: Seq<u8>, bits: Seq<bool>) -> bool {
    &&& bits.len() == bytes.len() * 8
    &&& forall|k: int, j: int|
        0 <= k < bytes.len() && 0 <= j < 8 ==> #[trigger] bits[k * 8 + j] == byte_bit(bytes[k], j as nat)
}

/// The two bit orders of the same bytes mirror each other within each byte.
pub proof fn law_bit_orders_mirror(bytes: Seq<u8>, msb: Seq<bool>, lsb: Seq<bool>)
    requires
        bits_msb_first(bytes, msb),
        bits_lsb_first(bytes, lsb),
    ensures
        msb.len() == lsb.len(),
        forall|k: int, j: int|
            0 <= k < bytes.len() && 0 <= j < 8 ==> #[trigger] msb[k * 8 + j] == lsb[k * 8 + (7 - j)],
{
    assert forall|k: int, j: int| 0 <= k < bytes.len() && 0 <= j < 8 implies #[trigger] msb[k * 8
        + j] == lsb[k * 8 + (7 - j)] by {
        assert(msb[k * 8 + j] == byte_bit(bytes[k], (7 - j) as nat));
        assert(lsb[k * 8 + (7 - j)] == byte_bit(bytes[k], (7 - j) as nat));
    }
}

/// The bits of `bytes`, eight per byte, most significant bit of each byte first.
pub fn bytes_to_bits(bytes: &[u8]) -> (bits: Vec<bool>)
    requires
        bytes@.len() * 8 <= usize::MAX,
    ensures
        bits_msb_first(bytes@, bits@),
{
    let mut bits: Vec<bool> = Vec::new();
    let n = bytes.len();
    let mut k: usize = 0;
    while k < n
        invariant
            n == bytes@.len(),
            n * 8 <= usize::MAX,
            k <= n,
            bits@.len() == k * 8,
            forall|kk: int, j: int|
                0 <= kk < k && 0 <= j < 8 ==> #[trigger] bits@[kk * 8 + j] == byte_bit(
                    bytes@[kk],
                    (7 - j) as nat,
                ),
        decreases n - k,
    {
        let v = bytes[k];
        let mut i: u8 = 8;
        while i > 0
            invariant
                i <= 8,
                k < n,
                v == bytes@[k as int],
                bits@.len() == k * 8 + (8 - i),
                forall|kk: int, j: int|
                    0 <= kk < k && 0 <= j < 8 ==> #[trigger] bits@[kk * 8 + j] == byte_bit(
                        bytes@[kk],
                        (7 - j) as nat,
                    ),
                forall|j: int|
                    0 <= j < 8 - i ==> #[trigger] bits@[k * 8 + j] == byte_bit(v, (7 - j) as nat),
            decreases i,
        {
            i = i - 1;
            proof {
                lemma_shift_bit(v, i);
            }
            bits.push((v >> i) & 1 == 1);
            assert(bits@[k * 8 + (7 - i)] == byte_bit(v, i as nat));
        }
        k = k + 1;
        assert forall|kk: int, j: int| 0 <= kk < k && 0 <= j < 8 implies #[trigger] bits@[kk * 8
            + j] == byte_bit(bytes@[kk], (7 - j) as nat) by {
            if kk == k - 1 {
                assert(kk * 8 + j == (k - 1) * 8 + j);
            }
        }
    }
    bits
}

/// The bits of `bytes`, eight per byte, least significant bit of each byte first.
pub fn bytes_to_bits_le(bytes: &[u8]) -> (bits: Vec<bool>)
    requires
        bytes@.len() * 8 <= usize::MAX,
    ensures
        bits_lsb_first(bytes@, bits@),
{
    let mut bits: Vec<bool> = Vec::new();
    let n = bytes.len();
    let mut k: usize = 0;
    while k < n
        invariant
            n == bytes@.len(),
            n * 8 <= usize::MAX,
            k <= n,
            bits@.len() == k * 8,
            forall|kk: int, j: int|
                0 <= kk < k && 0 <= j < 8 ==> #[trigger] bits@[kk * 8 + j] == byte_bit(
                    bytes@[kk],
                    j as nat,
                ),
        decreases n - k,
    {
        let v = bytes[k];
        let mut i: u8 = 0;
        while i < 8
            invariant
                i <= 8,
                k < n,
                v == bytes@[k as int],
                bits@.len() == k * 8 + i,
                forall|kk: int, j: int|
                    0 <= kk < k && 0 <= j < 8 ==> #[trigger] bits@[kk * 8 + j] == byte_bit(
                        bytes@[kk],
                        j as nat,
                    ),
                forall|j: int| 0 <= j < i ==> #[trigger] bits@[k * 8 + j] == byte_bit(v, j as nat),
            decreases 8 - i,
        {
            proof {
                lemma_shift_bit(v, i);
            }
            bits.push((v >> i) & 1 == 1);
            i = i + 1;
        }
        k = k + 1;
        assert forall|kk: int, j: int| 0 <= kk < k && 0 <= j < 8 implies #[trigger] bits@[kk * 8
            + j] == byte_bit(bytes@[kk], j as nat) by {
            if kk == k - 1 {
                assert(kk * 8 + j == (k - 1) * 8 + j);
            }
        }
    }
    bits
}

/// `packed` is the multipacking of `bits`: one element per chunk of
/// `capacity()` bits, each chunk read little-endian.
pub open spec fn multipacked(bits: Seq<bool>, packed: Seq<Scalar>) -> bool {
    &&& packed.len() == (bits.len() + capacity() - 1) / (capacity() as int)
    &&& forall|k: int|
        0 <= k < packed.len() ==> #[trigger] packed[k]@ == bits_le_nat(
            bits.subrange(k * capacity(), chunk_end(k as nat, bits.len()) as int),
        )
}

/// Bit strings of one length with the same value are the same.
proof fn lemma_bits_le_nat_injective(s: Seq<bool>, t: Seq<bool>)
    requires
        s.len() == t.len(),
        bits_le_nat(s) == bits_le_nat(t),
    ensures
        s == t,
    decreases s.len(),
{
    if s.len() > 0 {
        lemma_bits_le_nat_bound(s.drop_last());
        lemma_bits_le_nat_bound(t.drop_last());
        assert(s.last() == t.last());
        lemma_bits_le_nat_injective(s.drop_last(), t.drop_last());
        assert(s =~= s.drop_last().push(s.last()));
        assert(t =~= t.drop_last().push(t.last()));
    } else {
        assert(s =~= t);
    }
}

/// Where bit `i` falls when `n` bits are cut into chunks.
proof fn lemma_bit_in_chunk(i: int, n: nat)
    requires
        0 <= i < n,
    ensures
        0 <= i / (capacity() as int) < (n + capacity() - 1) / (capacity() as int),
        (i / (capacity() as int)) * capacity() <= i,
        i < chunk_end((i / (capacity() as int)) as nat, n),
{
    let c = capacity() as int;
    let k = i / c;
    vstd::arithmetic::div_mod::lemma_fundamental_div_mod(i, c);
    assert(0 <= i % c < c);
    assert(k >= 0) by {
        vstd::arithmetic::div_mod::lemma_div_pos_is_pos(i, c);
    }
    assert(k * c <= i);
    assert(k < (n + c - 1) / c) by {
        vstd::arithmetic::div_mod::lemma_div_is_ordered(i + c, n + c - 1, c);
        vstd::arithmetic::div_mod::lemma_div_plus_one(i, c);
    }
}

/// Multipacking loses nothing: bit strings of one length whose packings have
/// the same values are the same.
pub proof fn law_multipacking_is_lossless(
    bits1: Seq<bool>,
    bits2: Seq<bool>,
    packed1: Seq<Scalar>,
    packed2: Seq<Scalar>,
)
    requires
        bits1.len() == bits2.len(),
        multipacked(bits1, packed1),
        multipacked(bits2, packed2),
        forall|k: int| 0 <= k < packed1.len() ==> #[trigger] packed1[k]@ == packed2[k]@,
    ensures
        bits1 == bits2,
{
    let n = bits1.len();
    let c = capacity() as int;
    assert forall|i: int| 0 <= i < n implies bits1[i] == bits2[i] by {
        lemma_bit_in_chunk(i, n);
        let k = i / c;
        let end = chunk_end(k as nat, n) as int;
        let sub1 = bits1.subrange(k * c, end);
        let sub2 = bits2.subrange(k * c, end);
        assert(packed1[k]@ == bits_le_nat(sub1));
        assert(packed2[k]@ == bits_le_nat(sub2));
        lemma_bits_le_nat_injective(sub1, sub2);
        assert(sub1[i - k * c] == bits1[i]);
        assert(sub2[i - k * c] == bits2[i]);
    }
    assert(bits1 =~= bits2);
}

/// Packs `bits` into field elements, `capacity()` bits per element, each chunk
/// read little-endian (its first bit least significant).
pub fn compute_multipacking(bits: &[bool]) -> (result: Vec<Scalar>)
    ensures
        multipacked(bits@, result@),
{
    let cap = scalar_capacity() as usize;
    let n = bits.len();
    let mut result: Vec<Scalar> = Vec::new();
    let mut start: usize = 0;
    proof {
        lemma_capacity_fits();
    }
    while start < n
        invariant
            cap == capacity(),
            n == bits@.len(),
            start <= n,
            start < n ==> start == result@.len() * capacity(),
            start == n ==> result@.len() == (n + capacity() - 1) / (capacity() as int),
            start == chunk_end((result@.len() - 1) as nat, n as nat) || (start == 0 && result@.len() == 0),
            forall|k: int|
                0 <= k < result@.len() ==> #[trigger] result@[k]@ == bits_le_nat(
                    bits@.subrange(k * capacity(), chunk_end(k as nat, n as nat) as int),
                ),
            bit_base(capacity()) < scalar_modulus(),
        decreases n - start,
    {
        let end = if n - start < cap {
            n
        } else {
            start + cap
        };
        let ghost k = result@.len();
        assert(end == chunk_end(k, n as nat));
        let mut cur = Scalar::zero();
        let mut coeff = Scalar::one();
        let mut i: usize = start;
        while i < end
            invariant
                start <= i <= end <= n,
                end - start <= capacity(),
                n == bits@.len(),
                cur@ == bits_le_nat(bits@.subrange(start as int, i as int)),
                coeff@ == bit_base((i - start) as nat),
                bit_base(capacity()) < scalar_modulus(),
            decreases end - i,
        {
            let ghost t = (i - start) as nat;
            proof {
                lemma_bits_le_nat_bound(bits@.subrange(start as int, i as int));
                lemma_bit_base_monotone(t + 1, capacity());
                assert(bits@.subrange(start as int, i + 1).drop_last() =~= bits@.subrange(
                    start as int,
                    i as int,
                ));
            }
            if bits[i] {
                cur = cur.add(&coeff);
                proof {
                    vstd::arithmetic::div_mod::lemma_small_mod(
                        bits_le_nat(bits@.subrange(start as int, i as int)) + bit_base(t),
                        scalar_modulus(),
                    );
                }
            }
            coeff = coeff.double();
            proof {
                vstd::arithmetic::div_mod::lemma_small_mod(2 * bit_base(t), scalar_modulus());
            }
            i = i + 1;
        }
        result.push(cur);
        proof {
            assert((end + capacity() - 1) / (capacity() as int) == k + 1) by (nonlinear_arith)
                requires
                    end == chunk_end(k, n as nat),
                    k * capacity() < end,
                    capacity() == 254,
            ;
            assert forall|kk: int| 0 <= kk < result@.len() implies #[trigger] result@[kk]@
                == bits_le_nat(bits@.subrange(kk * capacity(), chunk_end(kk as nat, n as nat) as int)) by {
                if kk == k {
                    assert(kk * capacity() == start);
                }
            }
        }
        start = end;
    }
    result
}

/// The decimal digits of `n`, most significant first.
pub open spec fn decimal(n: nat) -> Seq<char>
    decreases n,
{
    if n < 10 {
        seq![(48 + n) as char]
    } else {
        decimal(n / 10).push((48 + n % 10) as char)
    }
}

/// `format!("input {}", i)`: `input ` followed by the decimal digits of `i`.
#[verifier::external_body]
fn input_label(i: usize) -> (r: String)
    ensures
        r@ == "input "@ + decimal(i as nat),
{
    format!("input {}", i)
}

/// `format!("packing constraint {}", i)`: `packing constraint ` followed by
/// the decimal digits of `i`.
#[verifier::external_body]
fn packing_label(i: usize) -> (r: String)
    ensures
        r@ == "packing constraint "@ + decimal(i as nat),
{
    format!("packing constraint {}", i)
}

/// The bits of chunk `k` when `bits` are cut into chunks of `capacity()` bits.
pub open spec fn chunk_of(bits: Seq<bool>, k: nat) -> Seq<bool> {
    bits.subrange((k * capacity()) as int, chunk_end(k, bits.len()) as int)
}

/// The terms of the packed value of a chunk: the constant one with
/// coefficient `2^j` for each set bit `j`, in order.
pub open spec fn chunk_terms(c: Seq<bool>) -> Seq<(Index, nat)>
    decreases c.len(),
{
    if c.len() == 0 {
        Seq::empty()
    } else if c.last() {
        chunk_terms(c.drop_last()).push((Index::Input(0), bit_base((c.len() - 1) as nat)))
    } else {
        chunk_terms(c.drop_last())
    }
}

/// The constraints that tie the first `k` chunks of `bits` to the inputs
/// numbered from `first`: packed value times one equals the input.
pub open spec fn packing_constraints(bits: Seq<bool>, first: nat, k: nat) -> Seq<ConstraintView>
    decreases k,
{
    if k == 0 {
        Seq::empty()
    } else {
        packing_constraints(bits, first, (k - 1) as nat).push(
            (
                chunk_terms(chunk_of(bits, (k - 1) as nat)),
                seq![(Index::Input(0), 1nat)],
                seq![(Index::Input((first + k - 1) as usize), 1nat)],
            ),
        )
    }
}

/// The calls that pack the first `k` chunks: for each, the input and then
/// its constraint, with their numbered annotations.
pub open spec fn packing_calls(k: nat) -> Seq<SystemCall>
    decreases k,
{
    if k == 0 {
        Seq::empty()
    } else {
        packing_calls((k - 1) as nat).push(
            SystemCall::AllocInput("input "@ + decimal((k - 1) as nat)),
        ).push(SystemCall::Enforce("packing constraint "@ + decimal((k - 1) as nat)))
    }
}

/// What `pack_into_inputs` does to a constraint system: one public input per
/// chunk, valued as `compute_multipacking` gives, and one constraint tying it
/// to the chunk's bits.
pub open spec fn packed_into_inputs<CS: ConstraintSystem>(bits: Seq<bool>, before: CS, after: CS) -> bool {
    let m = ((bits.len() + capacity() - 1) / (capacity() as int)) as nat;
    let n0 = before.input_assignment().len();
    &&& after.calls() == before.calls() + packing_calls(m)
    &&& after.constraints() == before.constraints() + packing_constraints(bits, before.num_inputs(), m)
    &&& after.num_aux() == before.num_aux()
    &&& after.aux_assignment() == before.aux_assignment()
    &&& after.num_inputs() == before.num_inputs() + m
    &&& after.input_assignment().len() == n0 + m
    &&& after.input_assignment().take(n0 as int) == before.input_assignment()
    &&& forall|k: int|
        0 <= k < m ==> ((#[trigger] after.input_assignment()[n0 + k]) matches Some(x) ==> x
            == bits_le_nat(chunk_of(bits, k as nat)))
}

/// Exposes fixed bits as compact public inputs: each chunk of `capacity()`
/// bits becomes one input, constrained to equal the chunk's packed value.
pub fn pack_into_inputs<CS: ConstraintSystem>(cs: &mut CS, bits: &[bool]) -> (r: Result<
    (),
    SynthesisError,
>)
    ensures
        r is Ok,
        packed_into_inputs(bits@, *old(cs), *final(cs)),
{
    let cap = scalar_capacity() as usize;
    let n = bits.len();
    let ghost k0 = cs.calls();
    let ghost c0 = cs.constraints();
    let ghost na = cs.num_aux();
    let ghost a0 = cs.aux_assignment();
    let ghost ni = cs.num_inputs();
    let ghost i0 = cs.input_assignment();
    let mut start: usize = 0;
    let mut k: usize = 0;
    proof {
        lemma_capacity_fits();
        assert(cs.calls() =~= k0 + packing_calls(0));
        assert(cs.constraints() =~= c0 + packing_constraints(bits@, ni, 0));
        assert(cs.input_assignment().take(i0.len() as int) =~= i0);
    }
    while start < n
        invariant
            cap == capacity(),
            n == bits@.len(),
            start <= n,
            start < n ==> start == k * capacity(),
            start == n ==> k == (n + capacity() - 1) / (capacity() as int),
            (k == 0 && start == 0) || start == chunk_end((k - 1) as nat, n as nat),
            cs.calls() == k0 + packing_calls(k as nat),
            cs.constraints() == c0 + packing_constraints(bits@, ni, k as nat),
            cs.num_aux() == na,
            cs.aux_assignment() == a0,
            cs.num_inputs() == ni + k,
            cs.input_assignment().len() == i0.len() + k,
            cs.input_assignment().take(i0.len() as int) == i0,
            forall|j: int|
                0 <= j < k ==> ((#[trigger] cs.input_assignment()[i0.len() + j]) matches Some(x)
                    ==> x == bits_le_nat(chunk_of(bits@, j as nat))),
            bit_base(capacity()) < scalar_modulus(),
        decreases n - start,
    {
        let end = if n - start < cap {
            n
        } else {
            start + cap
        };
        assert(end == chunk_end(k as nat, n as nat));
        let one = CS::one();
        let mut lc = LinearCombination::zero();
        let mut cur = Scalar::zero();
        let mut coeff = Scalar::one();
        let mut i: usize = start;
        proof {
            assert(bits@.subrange(start as int, start as int) =~= Seq::<bool>::empty());
            assert(lc_value(lc@) =~= Seq::<(Index, nat)>::empty());
        }
        while i < end
            invariant
                start <= i <= end <= n,
                end - start <= capacity(),
                n == bits@.len(),
                one.0 == Index::Input(0),
                lc_value(lc@) == chunk_terms(bits@.subrange(start as int, i as int)),
                cur@ == bits_le_nat(bits@.subrange(start as int, i as int)),
                coeff@ == bit_base((i - start) as nat),
                bit_base(capacity()) < scalar_modulus(),
            decreases end - i,
        {
            let ghost t = (i - start) as nat;
            let ghost sub = bits@.subrange(start as int, i + 1);
            proof {
                lemma_bits_le_nat_bound(bits@.subrange(start as int, i as int));
                lemma_bit_base_monotone(t + 1, capacity());
                assert(sub.drop_last() =~= bits@.subrange(start as int, i as int));
                assert(sub.last() == bits@[i as int]);
            }
            if bits[i] {
                let ghost before = lc@;
                lc = lc + (coeff, one);
                assert(lc_value(lc@) =~= lc_value(before).push((Index::Input(0), coeff@)));
                cur = cur.add(&coeff);
                proof {
                    vstd::arithmetic::div_mod::lemma_small_mod(
                        bits_le_nat(bits@.subrange(start as int, i as int)) + bit_base(t),
                        scalar_modulus(),
                    );
                }
            }
            coeff = coeff.double();
            proof {
                vstd::arithmetic::div_mod::lemma_small_mod(2 * bit_base(t), scalar_modulus());
            }
            i = i + 1;
        }
        let ghost value = cur@;
        let label = input_label(k);
        let f = move || -> (res: Result<Scalar, SynthesisError>)
            ensures
                res == Ok::<Scalar, SynthesisError>(cur),
            { Ok(cur) };
        let ghost ia = cs.input_assignment();
        let ghost kc = cs.calls();
        let input = match cs.alloc_input(label.as_str(), f) {
            Ok(v) => v,
            Err(e) => {
                assert(f.ensures((), Err::<Scalar, SynthesisError>(e)));
                assert(false);
                return Err(e);
            },
        };
        proof {
            assert(cs.input_assignment() =~= ia.push(cs.input_assignment().last()));
            if let Some(x) = cs.input_assignment().last() {
                let s = choose|s: Scalar| f.ensures((), Ok::<Scalar, SynthesisError>(s)) && s@ == x;
                assert(s == cur);
            }
        }
        let plabel = packing_label(k);
        let ghost packed = lc@;
        let fa = move |z: LinearCombination| -> (r: LinearCombination)
            ensures
                r@ == packed,
            { lc };
        let fb = move |z: LinearCombination| -> (r: LinearCombination)
            ensures
                r@ == z@.push((one, r@.last().1)),
                r@.last().1@ == 1,
            {
                let r = z + one;
                assert(r@ =~= z@.push((one, r@.last().1)));
                r
            };
        let fc = move |z: LinearCombination| -> (r: LinearCombination)
            ensures
                r@ == z@.push((input, r@.last().1)),
                r@.last().1@ == 1,
            {
                let r = z + input;
                assert(r@ =~= z@.push((input, r@.last().1)));
                r
            };
        let ghost cb = cs.constraints();
        cs.enforce(plabel.as_str(), fa, fb, fc);
        proof {
            let (za, la, zb, lb, zc, lcc) = choose|
                za: LinearCombination,
                la: LinearCombination,
                zb: LinearCombination,
                lb: LinearCombination,
                zc: LinearCombination,
                lcc: LinearCombination,
            |
                #![trigger fa.ensures((za,), la), fb.ensures((zb,), lb), fc.ensures((zc,), lcc)]
                za@.len() == 0 && zb@.len() == 0 && zc@.len() == 0 && fa.ensures((za,), la)
                    && fb.ensures((zb,), lb) && fc.ensures((zc,), lcc)
                    && cs.constraints() == cb.push((lc_value(la@), lc_value(lb@), lc_value(lcc@)));
            assert(lc_value(lb@) =~= seq![(Index::Input(0), 1nat)]);
            assert(lc_value(lcc@) =~= seq![(Index::Input((ni + k) as usize), 1nat)]);
            assert(bits@.subrange(start as int, end as int) == chunk_of(bits@, k as nat));
            assert(cs.constraints() =~= c0 + packing_constraints(bits@, ni, (k + 1) as nat));
            assert(cs.calls() =~= k0 + packing_calls((k + 1) as nat));
            assert(cs.input_assignment().take(i0.len() as int) =~= i0) by {
                assert(ia.take(i0.len() as int) == i0);
            }
            assert forall|j: int|
                0 <= j < k + 1 implies ((#[trigger] cs.input_assignment()[i0.len() + j]) matches Some(x)
                ==> x == bits_le_nat(chunk_of(bits@, j as nat))) by {
                if j < k {
                    assert(cs.input_assignment()[i0.len() + j] == ia[i0.len() + j]);
                }
            }
            assert((end + capacity() - 1) / (capacity() as int) == k + 1) by (nonlinear_arith)
                requires
                    end == chunk_end(k as nat, n as nat),
                    k * capacity() < end,
                    capacity() == 254,
            ;
        }
        k = k + 1;
        start = end;
    }
    Ok(())
}

/// The public inputs `pack_into_inputs` adds carry the values
/// `compute_multipacking` gives for the same bits.
pub proof fn law_packed_inputs_are_the_multipacking<CS: ConstraintSystem>(
    bits: Seq<bool>,
    before: CS,
    after: CS,
    packed: Seq<Scalar>,
)
    requires
        packed_into_inputs(bits, before, after),
        multipacked(bits, packed),
    ensures
        after.input_assignment().len() == before.input_assignment().len() + packed.len(),
        forall|k: int|
            0 <= k < packed.len() ==> ((#[trigger] after.input_assignment()[before.input_assignment().len()
                + k]) matches Some(x) ==> x == packed[k]@),
{
    assert forall|k: int| 0 <= k < packed.len() implies ((#[trigger] after.input_assignment()[before.input_assignment().len()
        + k]) matches Some(x) ==> x == packed[k]@) by {
        assert(chunk_of(bits, k as nat) == bits.subrange(k * capacity(), chunk_end(k as nat, bits.len()) as int));
    }
}

/// The value of a chunk's terms is the chunk's packed value.
proof fn lemma_chunk_terms_eval(c: Seq<bool>, aux: Seq<nat>, inputs: Seq<nat>)
    requires
        c.len() <= capacity(),
    ensures
        lc_eval(chunk_terms(c), aux, inputs) == Some(bits_le_nat(c)),
    decreases c.len(),
{
    if c.len() > 0 {
        let n = (c.len() - 1) as nat;
        lemma_chunk_terms_eval(c.drop_last(), aux, inputs);
        lemma_capacity_fits();
        lemma_bits_le_nat_bound(c.drop_last());
        lemma_bit_base_monotone(n + 1, capacity());
        lemma_bit_base_pos(n);
        let prev = bits_le_nat(c.drop_last());
        let b = bit_base(n);
        assert(prev + b < scalar_modulus());
        if c.last() {
            let t = chunk_terms(c);
            assert(t.drop_last() == chunk_terms(c.drop_last()));
            assert(t.last() == (Index::Input(0), b));
            vstd::arithmetic::div_mod::lemma_small_mod(b, scalar_modulus());
            vstd::arithmetic::div_mod::lemma_small_mod(prev + b, scalar_modulus());
            assert((b * 1) % scalar_modulus() == b);
        }
    }
}

/// The `j`-th of the packing constraints of the first `m` chunks.
proof fn lemma_packing_constraint_at(bits: Seq<bool>, first: nat, m: nat, j: int)
    requires
        0 <= j < m,
    ensures
        packing_constraints(bits, first, m).len() == m,
        packing_constraints(bits, first, m)[j] == (
            chunk_terms(chunk_of(bits, j as nat)),
            seq![(Index::Input(0), 1nat)],
            seq![(Index::Input((first + j) as usize), 1nat)],
        ),
    decreases m,
{
    lemma_packing_constraints_len(bits, first, m);
    if j < m - 1 {
        lemma_packing_constraint_at(bits, first, (m - 1) as nat, j);
    }
}

proof fn lemma_packing_constraints_len(bits: Seq<bool>, first: nat, m: nat)
    ensures
        packing_constraints(bits, first, m).len() == m,
    decreases m,
{
    if m > 0 {
        lemma_packing_constraints_len(bits, first, (m - 1) as nat);
    }
}

/// A chunk before the last holds at most `capacity()` bits.
proof fn lemma_chunk_len(bits: Seq<bool>, k: nat)
    requires
        k < (bits.len() + capacity() - 1) / (capacity() as int),
    ensures
        k * capacity() < bits.len(),
        chunk_of(bits, k).len() <= capacity(),
{
    let c = capacity() as int;
    let q = (bits.len() + c - 1) / c;
    vstd::arithmetic::div_mod::lemma_fundamental_div_mod(bits.len() + c - 1, c);
    assert(k * c < bits.len()) by (nonlinear_arith)
        requires
            k < q,
            bits.len() + c - 1 == c * q + (bits.len() + c - 1) % c,
            (bits.len() + c - 1) % c < c,
            c == 254,
    ;
}

/// Packing fixed bits into a recording system that was satisfied leaves it
/// satisfied: each packed input equals its chunk's packed value.
pub proof fn law_packing_constraints_hold(bits: Seq<bool>, before: RecordingSystem, after: RecordingSystem)
    requires
        before.satisfied(),
        before.num_inputs() >= 1,
        packed_into_inputs(bits, before, after),
    ensures
        after.satisfied(),
{
    lemma_recorded_assignments(before);
    lemma_recorded_assignments(after);
    lemma_capacity_fits();
    let m = ((bits.len() + capacity() - 1) / (capacity() as int)) as nat;
    let n0 = before.input_values().len();
    let aux = after.aux_values();
    let inputs = after.input_values();
    assert(aux =~= before.aux_values()) by {
        assert forall|i: int| 0 <= i < aux.len() implies aux[i] == before.aux_values()[i] by {
            assert(after.aux_assignment()[i] == before.aux_assignment()[i]);
        }
    }
    assert(inputs.take(n0 as int) =~= before.input_values()) by {
        assert forall|i: int| 0 <= i < n0 implies inputs[i] == before.input_values()[i] by {
            assert(after.input_assignment().take(n0 as int)[i] == after.input_assignment()[i]);
        }
    }
    let c = before.constraints().len();
    let added = packing_constraints(bits, before.num_inputs(), m);
    lemma_packing_constraints_len(bits, before.num_inputs(), m);
    assert forall|i: int| 0 <= i < after.constraints().len() implies constraint_holds(
        #[trigger] after.constraints()[i],
        after.aux_values(),
        after.input_values(),
    ) by {
        if i < c {
            assert(after.constraints()[i] == before.constraints()[i]);
            lemma_holds_extends_inputs(before.constraints()[i], aux, before.input_values(), inputs);
        } else {
            let j = i - c;
            assert(after.constraints()[i] == added[j]);
            lemma_packing_constraint_at(bits, before.num_inputs(), m, j);
            lemma_chunk_len(bits, j as nat);
            let chunk = chunk_of(bits, j as nat);
            lemma_chunk_terms_eval(chunk, aux, inputs);
            lemma_bits_le_nat_bound(chunk);
            lemma_bit_base_monotone(chunk.len(), capacity());
            lemma_eval_unit(Index::Input(0), aux, inputs);
            lemma_eval_unit(Index::Input((n0 + j) as usize), aux, inputs);
            assert(after.input_assignment()[n0 + j] == Some(inputs[n0 + j]));
            assert(inputs[n0 + j] == bits_le_nat(chunk));
            vstd::arithmetic::div_mod::lemma_small_mod(bits_le_nat(chunk), scalar_modulus());
            vstd::arithmetic::div_mod::lemma_small_mod(1, scalar_modulus());
            assert((bits_le_nat(chunk) * 1) % scalar_modulus() == bits_le_nat(chunk));
        }
    }
}

} // verus!
