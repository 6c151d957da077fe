//! The randomness pallet: a nonce-driven random number generator whose values
//! come from the runtime's randomness source.
//!
//! The source is asked for a seed with the current nonce as subject; the
//! caller makes that request and hands the seed to the functions here, which
//! decide what the pallet stores and returns.

use vstd::prelude::*;

use std::collections::HashMap;

use crate::bytes::le_nat;

verus! {

broadcast use vstd::std_specs::hash::group_hash_axioms;

/// Events of the pallet.
#[derive(Clone, Copy, PartialEq, Eq, Structural, Debug)]
pub enum Event {
    RandomNumberGenerated(u32),
}

/// Errors of the pallet.
#[derive(Clone, Copy, PartialEq, Eq, Structural, Debug)]
pub enum Error {
    NoneValue,
    StorageOverflow,
    RngWaring,
}

/// The pallet's storage.
pub struct Pallet {
    /// How many random values have been drawn.
    pub nonce: u64,
    /// The last 32-bit value drawn.
    pub random_number: u32,
    /// The last 64-bit value drawn.
    pub random_number64: u64,
    /// The value drawn when each block was initialised.
    pub on_initialize: HashMap<u64, u32>,
}

impl Default for Pallet {
    /// Empty storage: every value reads as zero and no block has a value.
    fn default() -> (p: Self)
        ensures
            p.nonce == 0,
            p.random_number == 0,
            p.random_number64 == 0,
            p.on_initialize@ == Map::<u64, u32>::empty(),
    {
        Pallet { nonce: 0, random_number: 0, random_number64: 0, on_initialize: HashMap::new() }
    }
}

/// The little-endian bytes of `n`, the subject under which the randomness
/// source is asked for the seed of the draw with nonce `n`.
pub open spec fn subject_of(n: u64) -> Seq<u8> {
    seq![
        (n & 0xff) as u8,
        ((n >> 8u64) & 0xff) as u8,
        ((n >> 16u64) & 0xff) as u8,
        ((n >> 24u64) & 0xff) as u8,
        ((n >> 32u64) & 0xff) as u8,
        ((n >> 40u64) & 0xff) as u8,
        ((n >> 48u64) & 0xff) as u8,
        ((n >> 56u64) & 0xff) as u8,
    ]
}

/// The little-endian digits of `n` are `subject_of(n)`.
pub proof fn lemma_subject_value(n: u64)
    ensures
        le_nat(subject_of(n)) == n,
{
    let s = subject_of(n);
    reveal_with_fuel(le_nat, 9);
    assert(s.drop_first() =~= seq![s[1], s[2], s[3], s[4], s[5], s[6], s[7]]);
    assert(s.drop_first().drop_first() =~= seq![s[2], s[3], s[4], s[5], s[6], s[7]]);
    assert(s.drop_first().drop_first().drop_first() =~= seq![s[3], s[4], s[5], s[6], s[7]]);
    assert(s.drop_first().drop_first().drop_first().drop_first() =~= seq![s[4], s[5], s[6], s[7]]);
    assert(s.drop_first().drop_first().drop_first().drop_first().drop_first() =~= seq![
        s[5],
        s[6],
        s[7],
    ]);
    assert(s.drop_first().drop_first().drop_first().drop_first().drop_first().drop_first()
        =~= seq![s[6], s[7]]);
    assert(s.drop_first().drop_first().drop_first().drop_first().drop_first().drop_first().drop_first()
        =~= seq![s[7]]);
    assert(seq![s[7]].drop_first() =~= Seq::<u8>::empty());
    let b0 = (n & 0xff) as u8;
    let b1 = ((n >> 8u64) & 0xff) as u8;
    let b2 = ((n >> 16u64) & 0xff) as u8;
    let b3 = ((n >> 24u64) & 0xff) as u8;
    let b4 = ((n >> 32u64) & 0xff) as u8;
    let b5 = ((n >> 40u64) & 0xff) as u8;
    let b6 = ((n >> 48u64) & 0xff) as u8;
    let b7 = ((n >> 56u64) & 0xff) as u8;
    assert(n == b0 as u64 + 256 * (b1 as u64 + 256 * (b2 as u64 + 256 * (b3 as u64 + 256 * (b4 as u64
        + 256 * (b5 as u64 + 256 * (b6 as u64 + 256 * (b7 as u64)))))))) by (bit_vector)
        requires
            b0 == (n & 0xff) as u8,
            b1 == ((n >> 8u64) & 0xff) as u8,
            b2 == ((n >> 16u64) & 0xff) as u8,
            b3 == ((n >> 24u64) & 0xff) as u8,
            b4 == ((n >> 32u64) & 0xff) as u8,
            b5 == ((n >> 40u64) & 0xff) as u8,
            b6 == ((n >> 48u64) & 0xff) as u8,
            b7 == ((n >> 56u64) & 0xff) as u8,
    ;
}

/// Distinct nonces give distinct subjects: no two draws ask the randomness
/// source under the same subject.
pub proof fn law_draws_ask_distinct_subjects(a: u64, b: u64)
    requires
        a != b,
    ensures
        subject_of(a) != subject_of(b),
{
    lemma_subject_value(a);
    lemma_subject_value(b);
}

/// The value of the first four seed bytes, read little-endian.
fn seed_u32(seed: &[u8]) -> (v: u32)
    requires
        seed@.len() >= 4,
    ensures
        v == le_nat(seed@.take(4)),
{
    let ghost t = seed@.take(4);
    proof {
        reveal_with_fuel(le_nat, 5);
        assert(t.drop_first() =~= seq![t[1], t[2], t[3]]);
        assert(t.drop_first().drop_first() =~= seq![t[2], t[3]]);
        assert(t.drop_first().drop_first().drop_first() =~= seq![t[3]]);
        assert(seq![t[3]].drop_first() =~= Seq::<u8>::empty());
    }
    (seed[0] as u32) + 256 * ((seed[1] as u32) + 256 * ((seed[2] as u32) + 256 * (seed[3] as u32)))
}

/// The value of the first eight seed bytes, read little-endian.
fn seed_u64(seed: &[u8]) -> (v: u64)
    requires
        seed@.len() >= 8,
    ensures
        v == le_nat(seed@.take(8)),
{
    let ghost t = seed@.take(8);
    proof {
        reveal_with_fuel(le_nat, 9);
        assert(t.drop_first() =~= seq![t[1], t[2], t[3], t[4], t[5], t[6], t[7]]);
        assert(t.drop_first().drop_first() =~= seq![t[2], t[3], t[4], t[5], t[6], t[7]]);
        assert(t.drop_first().drop_first().drop_first() =~= seq![t[3], t[4], t[5], t[6], t[7]]);
        assert(t.drop_first().drop_first().drop_first().drop_first() =~= seq![t[4], t[5], t[6], t[7]]);
        assert(t.drop_first().drop_first().drop_first().drop_first().drop_first() =~= seq![
            t[5],
            t[6],
            t[7],
        ]);
        assert(t.drop_first().drop_first().drop_first().drop_first().drop_first().drop_first()
            =~= seq![t[6], t[7]]);
        assert(t.drop_first().drop_first().drop_first().drop_first().drop_first().drop_first().drop_first()
            =~= seq![t[7]]);
        assert(seq![t[7]].drop_first() =~= Seq::<u8>::empty());
    }
    (seed[0] as u64) + 256 * ((seed[1] as u64) + 256 * ((seed[2] as u64) + 256 * ((seed[3] as u64)
        + 256 * ((seed[4] as u64) + 256 * ((seed[5] as u64) + 256 * ((seed[6] as u64) + 256 * (
    seed[7] as u64)))))))
}

/// The generator handed to code that needs random numbers; it draws through
/// the pallet's storage.
#[derive(Clone, Copy, Debug)]
pub struct ZKRng;

/// A generator that draws through the pallet's storage.
pub fn create_rng() -> (r: ZKRng) {
    ZKRng
}

impl ZKRng {
    /// The subject under which the randomness source must be asked for the
    /// seed of the next draw: the current nonce's little-endian bytes.
    pub fn randomness_subject(&self, storage: &Pallet) -> (r: [u8; 8])
        ensures
            r@ == subject_of(storage.nonce),
            le_nat(r@) == storage.nonce,
    {
        let n = storage.nonce;
        let r = [
            (n & 0xff) as u8,
            ((n >> 8u64) & 0xff) as u8,
            ((n >> 16u64) & 0xff) as u8,
            ((n >> 24u64) & 0xff) as u8,
            ((n >> 32u64) & 0xff) as u8,
            ((n >> 40u64) & 0xff) as u8,
            ((n >> 48u64) & 0xff) as u8,
            ((n >> 56u64) & 0xff) as u8,
        ];
        proof {
            lemma_subject_value(n);
            assert(r@ =~= subject_of(n));
        }
        r
    }

    /// Draws a 32-bit value from the seed the randomness source gave for
    /// `randomness_subject`: its first four bytes, little-endian. The value is
    /// stored as the last 32-bit value and the nonce advances.
    pub fn next_u32(&mut self, storage: &mut Pallet, random_seed: &[u8]) -> (v: u32)
        requires
            random_seed@.len() >= 4,
            old(storage).nonce < u64::MAX,
        ensures
            v == le_nat(random_seed@.take(4)),
            final(storage).random_number == v,
            final(storage).nonce == old(storage).nonce + 1,
            final(storage).random_number64 == old(storage).random_number64,
            final(storage).on_initialize@ == old(storage).on_initialize@,
    {
        let random_value = seed_u32(random_seed);
        storage.random_number = random_value;
        storage.nonce = storage.nonce + 1;
        random_value
    }

    /// Draws a 64-bit value: the seed's first eight bytes, little-endian. The
    /// value is stored as the last 64-bit value and the nonce advances.
    pub fn next_u64(&mut self, storage: &mut Pallet, random_seed: &[u8]) -> (v: u64)
        requires
            random_seed@.len() >= 8,
            old(storage).nonce < u64::MAX,
        ensures
            v == le_nat(random_seed@.take(8)),
            final(storage).random_number64 == v,
            final(storage).nonce == old(storage).nonce + 1,
            final(storage).random_number == old(storage).random_number,
            final(storage).on_initialize@ == old(storage).on_initialize@,
    {
        let random_value = seed_u64(random_seed);
        storage.random_number64 = random_value;
        storage.nonce = storage.nonce + 1;
        random_value
    }
}

impl Pallet {
    /// At the start of a block: draws a 32-bit value, records it for the
    /// block, and emits it.
    pub fn on_initialize(&mut self, block_number: u64, random_seed: &[u8]) -> (e: Event)
        requires
            random_seed@.len() >= 4,
            old(self).nonce < u64::MAX,
        ensures
            e == Event::RandomNumberGenerated(le_nat(random_seed@.take(4)) as u32),
            final(self).random_number == le_nat(random_seed@.take(4)),
            final(self).nonce == old(self).nonce + 1,
            final(self).random_number64 == old(self).random_number64,
            final(self).on_initialize@ == old(self).on_initialize@.insert(
                block_number,
                le_nat(random_seed@.take(4)) as u32,
            ),
    {
        let mut rng = create_rng();
        let random_value = rng.next_u32(self, random_seed);
        self.on_initialize.insert(block_number, random_value);
        Event::RandomNumberGenerated(random_value)
    }

    /// Draws a 32-bit value and emits it.
    pub fn generate_random_number(&mut self, random_seed: &[u8]) -> (r: Result<Event, Error>)
        requires
            random_seed@.len() >= 4,
            old(self).nonce < u64::MAX,
        ensures
            r == Ok::<Event, Error>(Event::RandomNumberGenerated(le_nat(random_seed@.take(4)) as u32)),
            final(self).random_number == le_nat(random_seed@.take(4)),
            final(self).nonce == old(self).nonce + 1,
            final(self).random_number64 == old(self).random_number64,
            final(self).on_initialize@ == old(self).on_initialize@,
    {
        let mut rng = create_rng();
        let random_value = rng.next_u32(self, random_seed);
        Ok(Event::RandomNumberGenerated(random_value))
    }

    /// Draws a 64-bit value.
    pub fn generate_random_number64(&mut self, random_seed: &[u8]) -> (r: Result<(), Error>)
        requires
            random_seed@.len() >= 8,
            old(self).nonce < u64::MAX,
        ensures
            r is Ok,
            final(self).random_number64 == le_nat(random_seed@.take(8)),
            final(self).nonce == old(self).nonce + 1,
            final(self).random_number == old(self).random_number,
            final(self).on_initialize@ == old(self).on_initialize@,
    {
        let mut rng = create_rng();
        rng.next_u64(self, random_seed);
        Ok(())
    }
}

/// A randomness source for tests: always the zero hash at block 0.
#[derive(Clone, Copy, Debug)]
pub struct TestRandomnessSource;

impl TestRandomnessSource {
    /// The seed for `subject` and the block it was fixed at: zeros and 0.
    pub fn random(_subject: &[u8]) -> (r: ([u8; 32], u64))
        ensures
            r.0@ == crate::store_type::zeros(32),
            r.1 == 0,
    {
        let seed: [u8; 32] = [0;32];
        assert(seed@ =~= crate::store_type::zeros(32));
        (seed, 0)
    }
}

} // verus!
