//! Cells: identity, ancestry, energy, and the access-control predicate that
//! gates neighbor interactions.

use vstd::prelude::*;

use crate::genome::Genome;
use crate::random_generator::spec_step_n;
use crate::random_generator::RandomGenerator;
use crate::GENOME_SIZE;
use crate::INFLOW_RATE_BASE;
use crate::POND_HEIGHT;
use crate::POND_WIDTH;

verus! {

/// A grid coordinate: column, then row.
#[derive(Clone, Copy, PartialEq, Eq, Structural, Debug)]
pub struct CellPosition(pub usize, pub usize);

impl CellPosition {
    /// A position lies on the grid.
    pub open spec fn wf(self) -> bool {
        self.0 < POND_WIDTH && self.1 < POND_HEIGHT
    }
}

/// A cell's identity: unique per instance ever created, while the id counter
/// has room.
#[derive(Clone, Copy, PartialEq, Eq, Structural, Debug)]
pub struct CellId(pub usize);

/// Hands out cell ids in increasing order. The counter saturates at the
/// largest machine word instead of wrapping, so it never returns to zero;
/// only the unreachable ceiling id could ever be handed out twice.
#[derive(Clone, Copy, PartialEq, Eq, Structural, Debug)]
pub struct CellIdGenerator {
    pub current: usize,
}

/// The id counter after one more id has been handed out.
pub open spec fn spec_next_id(current: usize) -> usize {
    if current < usize::MAX {
        (current + 1) as usize
    } else {
        current
    }
}

impl CellIdGenerator {
    pub fn new() -> (g: CellIdGenerator)
        ensures
            g.current == 0,
    {
        CellIdGenerator { current: 0 }
    }

    /// The next id: one past the previous, saturating at the largest word.
    pub fn next(&mut self) -> (id: CellId)
        ensures
            final(self).current == spec_next_id(old(self).current),
            id.0 == final(self).current,
    {
        if self.current < usize::MAX {
            self.current = self.current + 1;
        }
        CellId(self.current)
    }
}

/// How a cell tries to touch its neighbor: feeding it, or harming it.
#[derive(Clone, Copy, PartialEq, Eq, Structural, Debug)]
pub enum InteractionType {
    Negative,
    Positive,
}

/// One cell of the pond.
pub struct Cell {
    pub id: CellId,
    pub parent_id: Option<CellId>,
    pub lineage: CellId,
    pub generation: usize,
    pub energy: usize,
    pub genome: Genome,
}

/// The ghost value of a cell: its metadata and genome bytes.
pub ghost struct CellView {
    pub id: usize,
    pub parent_id: Option<usize>,
    pub lineage: usize,
    pub generation: usize,
    pub energy: usize,
    pub genome: Seq<u8>,
}

impl View for Cell {
    type V = CellView;

    open spec fn view(&self) -> CellView {
        CellView {
            id: self.id.0,
            parent_id: match self.parent_id {
                Some(p) => Some(p.0),
                None => None,
            },
            lineage: self.lineage.0,
            generation: self.generation,
            energy: self.energy,
            genome: self.genome@,
        }
    }
}

impl CellView {
    /// Every cell keeps these: a full-length genome, and generation zero
    /// whenever it has no parent.
    pub open spec fn wf(self) -> bool {
        self.genome.len() == GENOME_SIZE && (self.parent_id is None ==> self.generation == 0)
    }

    /// A freshly spawned or wiped cell founds its own line: no parent,
    /// generation zero, and a lineage equal to its own id.
    pub open spec fn founds_own_line(self) -> bool {
        self.parent_id is None ==> self.generation == 0 && self.lineage == self.id
    }
}

/// A cell's energy and generation never go below zero.
pub proof fn lemma_cell_counters_nonnegative(c: &Cell)
    ensures
        0 <= c.energy as int,
        0 <= c.generation as int,
{
}

/// The number of set bits among the low four bits of a byte, between 0 and 4.
pub open spec fn spec_pop4(x: u8) -> u8 {
    ((x & 1) + ((x >> 1) & 1) + ((x >> 2) & 1) + ((x >> 3) & 1)) as u8
}

/// How far the low nibble of a cell's first genome byte is from a guess:
/// the popcount of their difference.
pub open spec fn spec_match_distance(first_byte: u8, guess: u8) -> u8 {
    spec_pop4((first_byte & 0x0f) ^ (guess & 0x0f))
}

/// Whether an interaction with a cell goes through. A cell without a parent
/// is defenseless; otherwise a positive interaction needs the random
/// threshold nibble to reach the match distance from above, a negative one
/// from below.
pub open spec fn spec_can_be_accessed(
    cell: CellView,
    guess: u8,
    interaction: InteractionType,
    threshold: u8,
) -> bool {
    let h = spec_match_distance(cell.genome[0], guess);
    match interaction {
        InteractionType::Positive => cell.parent_id is None || (threshold & 0x0f) >= h,
        InteractionType::Negative => cell.parent_id is None || (threshold & 0x0f) <= h,
    }
}

impl Cell {
    pub open spec fn wf(self) -> bool {
        self@.wf()
    }

    /// A fresh cell founding its own line: a new id, also its lineage, no
    /// parent, inflow energy, and the inert genome.
    pub fn new(generator: &mut CellIdGenerator) -> (c: Cell)
        ensures
            final(generator).current == spec_next_id(old(generator).current),
            c@ == (CellView {
                id: final(generator).current,
                parent_id: None,
                lineage: final(generator).current,
                generation: 0,
                energy: INFLOW_RATE_BASE,
                genome: crate::genome::spec_inert_genome(),
            }),
            c@.founds_own_line(),
            c.wf(),
    {
        let id = generator.next();
        Cell {
            id,
            parent_id: None,
            lineage: id,
            generation: 0,
            energy: INFLOW_RATE_BASE,
            genome: Genome::new(),
        }
    }

    /// A fresh cell with a uniformly random genome, founding its own line.
    pub fn random(id_generator: &mut CellIdGenerator, generator: &mut RandomGenerator) -> (c: Cell)
        ensures
            final(id_generator).current == spec_next_id(old(id_generator).current),
            *final(generator) == spec_step_n(*old(generator), GENOME_SIZE as nat),
            c@.id == final(id_generator).current,
            c@.parent_id is None,
            c@.lineage == final(id_generator).current,
            c@.founds_own_line(),
            c@.generation == 0,
            c@.energy == INFLOW_RATE_BASE,
            c@.genome == crate::genome::spec_random_genome(*old(generator)),
            c.wf(),
    {
        let mut res = Cell::new(id_generator);
        res.genome = Genome::random(generator);
        res
    }

    /// Decides whether an interaction with this cell goes through, comparing
    /// the threshold nibble against the popcount distance between the guess
    /// and the cell's first genome nibble.
    pub fn can_be_accessed(&self, guess: u8, interaction: InteractionType, threshold: u8) -> (r:
        bool)
        requires
            self.wf(),
        ensures
            r == spec_can_be_accessed(self@, guess, interaction, threshold),
    {
        if self.parent_id.is_none() {
            return true;
        }
        let diff = (self.genome.0[0] & 0x0f) ^ (guess & 0x0f);
        proof {
            assert((diff & 1) + ((diff >> 1) & 1) + ((diff >> 2) & 1) + ((diff >> 3) & 1) < 256)
                by (bit_vector);
        }
        let ones = (diff & 1) + ((diff >> 1) & 1) + ((diff >> 2) & 1) + ((diff >> 3) & 1);
        match interaction {
            InteractionType::Positive => (threshold & 0x0f) >= ones,
            InteractionType::Negative => (threshold & 0x0f) <= ones,
        }
    }
}

} // verus!
