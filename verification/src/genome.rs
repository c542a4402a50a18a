//! The genome: a fixed run of bytes read and written as a ring of 4-bit
//! nibbles, low half before high half, through a two-part cursor.

use vstd::prelude::*;

use crate::random_generator::spec_output_n;
use crate::random_generator::spec_step_n;
use crate::random_generator::RandomGenerator;
use crate::GENOME_SIZE;

verus! {

/// A genome: `GENOME_SIZE` bytes, i.e. twice as many nibbles.
pub struct Genome(pub Vec<u8>);

/// A cursor addressing one nibble: a byte index and which half of the byte.
#[derive(Clone, Copy, PartialEq, Eq, Structural, Debug)]
pub struct GenomePointer {
    pub array_pointer: usize,
    pub is_lower_byte: bool,
}

impl View for Genome {
    type V = Seq<u8>;

    open spec fn view(&self) -> Seq<u8> {
        self.0@
    }
}

/// The nibble that one half of a byte holds.
pub open spec fn spec_nibble(byte: u8, lower: bool) -> u8 {
    if lower {
        byte & 0x0f
    } else {
        (byte >> 4) & 0x0f
    }
}

/// The byte with one of its halves overwritten by the low four bits of `value`.
pub open spec fn spec_set_nibble(byte: u8, lower: bool, value: u8) -> u8 {
    if lower {
        (byte & 0xf0) | (value & 0x0f)
    } else {
        ((value & 0x0f) << 4) | (byte & 0x0f)
    }
}

/// The nibble a cursor addresses in a byte sequence.
pub open spec fn spec_get(bytes: Seq<u8>, pointer: GenomePointer) -> u8 {
    spec_nibble(bytes[pointer.array_pointer as int], pointer.is_lower_byte)
}

/// The byte sequence with the addressed nibble overwritten.
pub open spec fn spec_set(bytes: Seq<u8>, pointer: GenomePointer, value: u8) -> Seq<u8> {
    bytes.update(
        pointer.array_pointer as int,
        spec_set_nibble(bytes[pointer.array_pointer as int], pointer.is_lower_byte, value),
    )
}

/// The all-ones genome: every nibble is 0xF, the `Stop` instruction.
pub open spec fn spec_inert_genome() -> Seq<u8> {
    Seq::new(GENOME_SIZE as nat, |i: int| 0xffu8)
}

/// The bytes a random genome drawn from generator state `g` holds: one draw
/// per byte, truncated.
pub open spec fn spec_random_genome(g: RandomGenerator) -> Seq<u8> {
    Seq::new(GENOME_SIZE as nat, |i: int| spec_output_n(g, i as nat) as u8)
}

/// The cursor one nibble forward, wrapping after the last high half.
pub open spec fn spec_advance(p: GenomePointer) -> GenomePointer {
    if p.is_lower_byte {
        GenomePointer { array_pointer: p.array_pointer, is_lower_byte: false }
    } else {
        GenomePointer {
            array_pointer: (((p.array_pointer + 1) as int) % (GENOME_SIZE as int)) as usize,
            is_lower_byte: true,
        }
    }
}

/// The cursor one nibble back, wrapping before the first low half.
pub open spec fn spec_retreat(p: GenomePointer) -> GenomePointer {
    if p.is_lower_byte {
        GenomePointer {
            array_pointer: if p.array_pointer == 0 {
                (GENOME_SIZE - 1) as usize
            } else {
                (p.array_pointer - 1) as usize
            },
            is_lower_byte: false,
        }
    } else {
        GenomePointer { array_pointer: p.array_pointer, is_lower_byte: true }
    }
}

/// The cursor `n` nibbles forward.
pub open spec fn spec_advance_n(p: GenomePointer, n: nat) -> GenomePointer
    decreases n,
{
    if n == 0 {
        p
    } else {
        spec_advance(spec_advance_n(p, (n - 1) as nat))
    }
}

impl GenomePointer {
    /// A cursor stays inside the byte run.
    pub open spec fn wf(self) -> bool {
        self.array_pointer < GENOME_SIZE
    }

    pub fn new(array_pointer: usize, is_lower_byte: bool) -> (p: GenomePointer)
        requires
            array_pointer < GENOME_SIZE,
        ensures
            p == (GenomePointer { array_pointer, is_lower_byte }),
            p.wf(),
    {
        GenomePointer { array_pointer, is_lower_byte }
    }

    /// Moves one nibble forward: the high half of a byte is followed by the
    /// low half of the next byte, wrapping at the end.
    pub fn next(&mut self)
        requires
            old(self).wf(),
        ensures
            *final(self) == spec_advance(*old(self)),
            final(self).wf(),
    {
        if !self.is_lower_byte {
            self.array_pointer = (self.array_pointer + 1) % GENOME_SIZE;
        }
        self.is_lower_byte = !self.is_lower_byte;
    }

    /// Moves one nibble back: the inverse of `next`.
    pub fn prev(&mut self)
        requires
            old(self).wf(),
        ensures
            *final(self) == spec_retreat(*old(self)),
            final(self).wf(),
    {
        if self.is_lower_byte {
            self.array_pointer = if self.array_pointer == 0 {
                GENOME_SIZE - 1
            } else {
                self.array_pointer - 1
            };
        }
        self.is_lower_byte = !self.is_lower_byte;
    }
}

impl Genome {
    /// A genome holds exactly `GENOME_SIZE` bytes.
    pub open spec fn wf(self) -> bool {
        self@.len() == GENOME_SIZE
    }

    /// The inert genome: all bits set, so every nibble reads as `Stop`.
    pub fn new() -> (g: Genome)
        ensures
            g@ == spec_inert_genome(),
            g.wf(),
    {
        let mut bytes: Vec<u8> = Vec::new();
        let mut i: usize = 0;
        while i < GENOME_SIZE
            invariant
                i <= GENOME_SIZE,
                bytes@.len() == i,
                forall|j: int| 0 <= j < i ==> bytes@[j] == 0xffu8,
            decreases GENOME_SIZE - i,
        {
            bytes.push(0xff);
            i = i + 1;
        }
        proof {
            assert(bytes@ =~= spec_inert_genome());
        }
        Genome(bytes)
    }

    /// A genome of uniformly random bytes: each byte is one generator draw,
    /// truncated.
    pub fn random(generator: &mut RandomGenerator) -> (g: Genome)
        ensures
            g.wf(),
            g@ == spec_random_genome(*old(generator)),
            *final(generator) == spec_step_n(*old(generator), GENOME_SIZE as nat),
    {
        let mut bytes: Vec<u8> = Vec::new();
        let mut i: usize = 0;
        while i < GENOME_SIZE
            invariant
                i <= GENOME_SIZE,
                bytes@.len() == i,
                forall|j: int|
                    0 <= j < i ==> bytes@[j] == (spec_output_n(*old(generator), j as nat) as u8),
                *generator == spec_step_n(*old(generator), i as nat),
            decreases GENOME_SIZE - i,
        {
            let n = generator.generate_integer();
            bytes.push(n as u8);
            i = i + 1;
        }
        proof {
            assert(bytes@ =~= spec_random_genome(*old(generator)));
        }
        Genome(bytes)
    }

    /// Reads the nibble the cursor addresses.
    pub fn get(&self, pointer: &GenomePointer) -> (r: u8)
        requires
            self.wf(),
            pointer.wf(),
        ensures
            r == spec_get(self@, *pointer),
            r < 16,
    {
        proof {
            assert(spec_nibble(self@[pointer.array_pointer as int], pointer.is_lower_byte)
                < 16) by {
                let b = self@[pointer.array_pointer as int];
                assert((b & 0x0f) < 16 && ((b >> 4) & 0x0f) < 16) by (bit_vector);
            }
        }
        if pointer.is_lower_byte {
            self.0[pointer.array_pointer] & 0x0f
        } else {
            (self.0[pointer.array_pointer] >> 4) & 0x0f
        }
    }

    /// Overwrites the nibble the cursor addresses, keeping the byte's other
    /// half.
    pub fn set(&mut self, pointer: &GenomePointer, value: u8)
        requires
            old(self).wf(),
            pointer.wf(),
        ensures
            final(self)@ == spec_set(old(self)@, *pointer, value),
            final(self).wf(),
    {
        let byte = self.0[pointer.array_pointer];
        let updated = if pointer.is_lower_byte {
            (byte & 0xf0) | (value & 0x0f)
        } else {
            ((value & 0x0f) << 4) | (byte & 0x0f)
        };
        self.0[pointer.array_pointer] = updated;
    }
}

impl Clone for Genome {
    /// A copy with the same bytes.
    fn clone(&self) -> (g: Genome)
        ensures
            g@ == self@,
    {
        let mut bytes: Vec<u8> = Vec::new();
        let mut i: usize = 0;
        while i < self.0.len()
            invariant
                i <= self.0.len(),
                bytes@.len() == i,
                forall|j: int| 0 <= j < i ==> bytes@[j] == self.0@[j],
            decreases self.0.len() - i,
        {
            bytes.push(self.0[i]);
            i = i + 1;
        }
        proof {
            assert(bytes@ =~= self@);
        }
        Genome(bytes)
    }
}

/// Writing a nibble and reading it back through the same cursor returns the
/// written value, masked to four bits.
pub proof fn lemma_get_set(bytes: Seq<u8>, pointer: GenomePointer, value: u8)
    requires
        bytes.len() == GENOME_SIZE,
        pointer.wf(),
    ensures
        spec_get(spec_set(bytes, pointer, value), pointer) == value & 0x0f,
{
    let b = bytes[pointer.array_pointer as int];
    assert(((b & 0xf0) | (value & 0x0f)) & 0x0f == value & 0x0f) by (bit_vector);
    assert(((((value & 0x0f) << 4) | (b & 0x0f)) >> 4) & 0x0f == value & 0x0f) by (bit_vector);
}

/// Stepping back after stepping forward, or forward after back, returns to
/// the same cursor.
pub proof fn lemma_advance_retreat(p: GenomePointer)
    requires
        p.wf(),
    ensures
        spec_retreat(spec_advance(p)) == p,
        spec_advance(spec_retreat(p)) == p,
{
    if !p.is_lower_byte {
        if p.array_pointer + 1 < GENOME_SIZE {
            assert((p.array_pointer + 1) % (GENOME_SIZE as int) == p.array_pointer + 1);
        } else {
            assert((p.array_pointer + 1) % (GENOME_SIZE as int) == 0);
        }
    }
    if p.is_lower_byte && p.array_pointer == 0 {
        vstd::arithmetic::div_mod::lemma_mod_self_0(GENOME_SIZE as int);
        assert(((GENOME_SIZE - 1) + 1) as int % (GENOME_SIZE as int) == 0);
    }
}

/// Two forward steps move the cursor one whole byte forward, on the same
/// half.
proof fn lemma_advance_twice(p: GenomePointer)
    requires
        p.wf(),
    ensures
        spec_advance_n(p, 2) == (GenomePointer {
            array_pointer: (((p.array_pointer + 1) as int) % (GENOME_SIZE as int)) as usize,
            is_lower_byte: p.is_lower_byte,
        }),
{
    assert(spec_advance_n(p, 0) == p);
    assert(spec_advance_n(p, 1) == spec_advance(p));
    assert(spec_advance_n(p, 2) == spec_advance(spec_advance(p)));
}

/// Advancing in two runs is the same as advancing once by their total.
proof fn lemma_advance_n_add(p: GenomePointer, m: nat, n: nat)
    ensures
        spec_advance_n(p, m + n) == spec_advance_n(spec_advance_n(p, m), n),
    decreases n,
{
    if n > 0 {
        lemma_advance_n_add(p, m, (n - 1) as nat);
        assert(m + n == (m + (n - 1) as nat) + 1);
    }
}

/// `2 * k` forward steps move the byte index forward by `k`, modulo the
/// genome's byte count, keeping the half.
proof fn lemma_advance_even(p: GenomePointer, k: nat)
    requires
        p.wf(),
    ensures
        spec_advance_n(p, 2 * k) == (GenomePointer {
            array_pointer: ((p.array_pointer + k) % (GENOME_SIZE as int)) as usize,
            is_lower_byte: p.is_lower_byte,
        }),
    decreases k,
{
    if k == 0 {
        assert((p.array_pointer as int) % (GENOME_SIZE as int) == p.array_pointer);
    } else {
        lemma_advance_even(p, (k - 1) as nat);
        let q = spec_advance_n(p, 2 * (k - 1) as nat);
        lemma_advance_n_add(p, 2 * (k - 1) as nat, 2);
        assert(2 * k == 2 * (k - 1) as nat + 2);
        lemma_advance_twice(q);
        assert((((p.array_pointer + (k - 1) as nat) % (GENOME_SIZE as int)) + 1) % (
        GENOME_SIZE as int) == (p.array_pointer + k) % (GENOME_SIZE as int)) by {
            vstd::arithmetic::div_mod::lemma_add_mod_noop(
                p.array_pointer + (k - 1) as nat,
                1,
                GENOME_SIZE as int,
            );
            vstd::arithmetic::div_mod::lemma_small_mod(1nat, GENOME_SIZE as nat);
            vstd::arithmetic::div_mod::lemma_mod_twice(
                p.array_pointer + (k - 1) as nat + 1,
                GENOME_SIZE as int,
            );
        }
    }
}

/// A full walk of the nibble ring — as many forward steps as the genome has
/// nibbles — returns the cursor to where it started.
pub proof fn lemma_advance_full_cycle(p: GenomePointer)
    requires
        p.wf(),
    ensures
        spec_advance_n(p, crate::POND_DEPTH as nat) == p,
{
    lemma_advance_even(p, GENOME_SIZE as nat);
    vstd::arithmetic::div_mod::lemma_mod_add_multiples_vanish(
        p.array_pointer as int,
        GENOME_SIZE as int,
    );
    vstd::arithmetic::div_mod::lemma_small_mod(p.array_pointer as nat, GENOME_SIZE as nat);
}

} // verus!
