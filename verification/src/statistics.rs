//! Counters describing a report window: per-instruction executions, cell
//! executions, and the interactions that touched viable replicators.
//!
//! Every counter bumps saturate at the largest machine word instead of
//! wrapping, so the counts never panic and never go backwards.

use vstd::prelude::*;

use crate::instruction::spec_code;
use crate::instruction::Instruction;

verus! {

/// A counter one past `x`, stopping at the largest machine word.
pub open spec fn spec_sat_inc(x: usize) -> usize {
    if x < usize::MAX {
        (x + 1) as usize
    } else {
        x
    }
}

/// Bumps a counter, saturating instead of overflowing.
pub fn saturating_inc(x: usize) -> (r: usize)
    ensures
        r == spec_sat_inc(x),
{
    if x < usize::MAX {
        x + 1
    } else {
        x
    }
}

/// The sum of the first `k` entries of a counter row.
pub open spec fn spec_sum_prefix(s: Seq<usize>, k: int) -> int
    decreases k,
{
    if k <= 0 {
        0
    } else {
        spec_sum_prefix(s, k - 1) + s[k - 1]
    }
}

/// The sum of a whole counter row.
pub open spec fn spec_total(s: Seq<usize>) -> int {
    spec_sum_prefix(s, s.len() as int)
}

/// The sum of a whole counter row, clamped to the largest machine word.
pub open spec fn spec_saturated_total(s: Seq<usize>) -> int {
    if spec_total(s) <= usize::MAX {
        spec_total(s)
    } else {
        usize::MAX as int
    }
}

proof fn lemma_sum_prefix_nonneg(s: Seq<usize>, k: int)
    ensures
        0 <= spec_sum_prefix(s, k),
    decreases k,
{
    if k > 0 {
        lemma_sum_prefix_nonneg(s, k - 1);
    }
}

proof fn lemma_sum_prefix_except(s1: Seq<usize>, s2: Seq<usize>, k: int, i: int)
    requires
        forall|j: int| 0 <= j < k && j != i ==> s2[j] == s1[j],
    ensures
        spec_sum_prefix(s2, k) == spec_sum_prefix(s1, k) + if 0 <= i < k {
            s2[i] - s1[i]
        } else {
            0int
        },
    decreases k,
{
    if k > 0 {
        lemma_sum_prefix_except(s1, s2, k - 1, i);
    }
}

/// Overwriting one bin moves a counter row's total by exactly that bin's
/// difference.
pub proof fn lemma_total_update(s: Seq<usize>, i: int, v: usize)
    requires
        0 <= i < s.len(),
    ensures
        spec_total(s.update(i, v)) == spec_total(s) - s[i] + v,
{
    lemma_sum_prefix_except(s, s.update(i, v), s.len() as int, i);
}

/// Sixteen execution counters, one per instruction code.
pub struct InstructionCounter(pub Vec<usize>);

impl View for InstructionCounter {
    type V = Seq<usize>;

    open spec fn view(&self) -> Seq<usize> {
        self.0@
    }
}

impl InstructionCounter {
    /// A counter holds one bin per instruction.
    pub open spec fn wf(self) -> bool {
        self@.len() == 16
    }

    /// All bins start at zero.
    pub fn new() -> (c: InstructionCounter)
        ensures
            c.wf(),
            forall|i: int| 0 <= i < 16 ==> c@[i] == 0,
    {
        let mut v: Vec<usize> = Vec::new();
        let mut i: usize = 0;
        while i < 16
            invariant
                i <= 16,
                v@.len() == i,
                forall|j: int| 0 <= j < i ==> v@[j] == 0,
            decreases 16 - i,
        {
            v.push(0);
            i = i + 1;
        }
        InstructionCounter(v)
    }

    /// Reads one instruction's bin.
    pub fn count(&self, instruction: Instruction) -> (r: usize)
        requires
            self.wf(),
        ensures
            r == self@[spec_code(instruction)],
    {
        self.0[Self::code(instruction)]
    }

    /// Bumps one instruction's bin, saturating.
    pub fn increment(&mut self, instruction: Instruction)
        requires
            old(self).wf(),
        ensures
            final(self)@ == old(self)@.update(
                spec_code(instruction),
                spec_sat_inc(old(self)@[spec_code(instruction)]),
            ),
            final(self).wf(),
    {
        let c = Self::code(instruction);
        let v = self.0[c];
        self.0[c] = saturating_inc(v);
    }

    /// The numeric code of an instruction.
    pub fn code(instruction: Instruction) -> (r: usize)
        ensures
            r == spec_code(instruction),
    {
        match instruction {
            Instruction::Zero => 0,
            Instruction::Fwd => 1,
            Instruction::Back => 2,
            Instruction::Inc => 3,
            Instruction::Dec => 4,
            Instruction::ReadGenome => 5,
            Instruction::WriteGenome => 6,
            Instruction::ReadBuffer => 7,
            Instruction::WriteBuffer => 8,
            Instruction::Loop => 9,
            Instruction::Rep => 10,
            Instruction::Turn => 11,
            Instruction::Xchg => 12,
            Instruction::Kill => 13,
            Instruction::Share => 14,
            Instruction::Stop => 15,
        }
    }
}

/// The simulation's counters for one report window. `clock` alone survives a
/// reset.
pub struct Statistics {
    pub instruction_executions: InstructionCounter,
    pub cell_executions: usize,
    pub clock: usize,
    pub viable_cells_killed: usize,
    pub viable_cell_shares: usize,
    pub viable_cell_replaced: usize,
}

/// The ghost value of the statistics: the counter row and the scalar
/// counters.
pub ghost struct StatisticsView {
    pub instruction_executions: Seq<usize>,
    pub cell_executions: usize,
    pub clock: usize,
    pub viable_cells_killed: usize,
    pub viable_cell_shares: usize,
    pub viable_cell_replaced: usize,
}

impl View for Statistics {
    type V = StatisticsView;

    open spec fn view(&self) -> StatisticsView {
        StatisticsView {
            instruction_executions: self.instruction_executions@,
            cell_executions: self.cell_executions,
            clock: self.clock,
            viable_cells_killed: self.viable_cells_killed,
            viable_cell_shares: self.viable_cell_shares,
            viable_cell_replaced: self.viable_cell_replaced,
        }
    }
}

impl Statistics {
    pub open spec fn wf(self) -> bool {
        self.instruction_executions.wf()
    }

    /// Everything starts at zero.
    pub fn new() -> (s: Statistics)
        ensures
            s.wf(),
            forall|i: int| 0 <= i < 16 ==> s.instruction_executions@[i] == 0,
            s.cell_executions == 0,
            s.clock == 0,
            s.viable_cells_killed == 0,
            s.viable_cell_shares == 0,
            s.viable_cell_replaced == 0,
    {
        Statistics {
            instruction_executions: InstructionCounter::new(),
            cell_executions: 0,
            clock: 0,
            viable_cells_killed: 0,
            viable_cell_shares: 0,
            viable_cell_replaced: 0,
        }
    }

    /// Resets every counter except the clock.
    pub fn zero(&mut self)
        ensures
            final(self).wf(),
            forall|i: int| 0 <= i < 16 ==> final(self).instruction_executions@[i] == 0,
            final(self).cell_executions == 0,
            final(self).clock == old(self).clock,
            final(self).viable_cells_killed == 0,
            final(self).viable_cell_shares == 0,
            final(self).viable_cell_replaced == 0,
    {
        self.instruction_executions = InstructionCounter::new();
        self.cell_executions = 0;
        self.viable_cells_killed = 0;
        self.viable_cell_shares = 0;
        self.viable_cell_replaced = 0;
    }

    /// The total of the per-instruction counters, clamped to the largest
    /// machine word.
    fn total_metabolism(&self) -> (r: usize)
        requires
            self.wf(),
        ensures
            r == spec_saturated_total(self.instruction_executions@),
    {
        let s = &self.instruction_executions;
        let mut acc: usize = 0;
        let mut i: usize = 0;
        while i < 16
            invariant
                self.wf(),
                s == &self.instruction_executions,
                i <= 16,
                acc as int == if spec_sum_prefix(s@, i as int) <= usize::MAX {
                    spec_sum_prefix(s@, i as int)
                } else {
                    usize::MAX as int
                },
            decreases 16 - i,
        {
            proof {
                lemma_sum_prefix_nonneg(s@, i as int);
            }
            acc = acc.saturating_add(s.0[i]);
            i = i + 1;
        }
        acc
    }

    /// The average number of instructions one cell execution runs: the
    /// clamped total of the instruction counters divided by the number of
    /// cell executions, or zero when nothing ran.
    pub fn metabolism(&self) -> (r: usize)
        requires
            self.wf(),
        ensures
            r == if self.cell_executions == 0 {
                0int
            } else {
                spec_saturated_total(self.instruction_executions@) / (self.cell_executions as int)
            },
    {
        if self.cell_executions == 0 {
            0
        } else {
            self.total_metabolism() / self.cell_executions
        }
    }
}

} // verus!
