//! The virtual machine: one execution interprets one cell's genome against
//! the pond, the random stream, the id well and the statistics. Each tick
//! may mutate the genome or the register, costs one unit of energy, fetches
//! one nibble, and dispatches it; when the cell runs out of energy or stops,
//! the accumulated output genome may overwrite the faced neighbor.

use vstd::prelude::*;

use crate::cell::spec_can_be_accessed;
use crate::cell::spec_next_id;
use crate::cell::CellIdGenerator;
use crate::cell::CellPosition;
use crate::cell::CellView;
use crate::cell::InteractionType;
use crate::cell_pond::grid_cell;
use crate::cell_pond::grid_wf;
use crate::cell_pond::grid_with;
use crate::cell_pond::lemma_grid_view_cells;
use crate::cell_pond::lemma_grid_view_update;
use crate::cell_pond::lemma_pond_energy_nonneg;
use crate::cell_pond::lemma_view_energy_nonneg;
use crate::cell_pond::lemma_view_energy_update;
use crate::cell_pond::neighbor_position;
use crate::cell_pond::spec_grid_view;
use crate::cell_pond::spec_neighbor_position;
use crate::cell_pond::spec_pond_energy;
use crate::cell_pond::spec_view_energy;
use crate::cell_pond::CellPond;
use crate::genome::spec_advance;
use crate::genome::spec_get;
use crate::genome::spec_inert_genome;
use crate::genome::spec_retreat;
use crate::genome::spec_set;
use crate::genome::Genome;
use crate::genome::GenomePointer;
use crate::instruction::spec_code;
use crate::instruction::spec_instruction_of;
use crate::instruction::Instruction;
use crate::GENOME_SIZE;
use crate::random_generator::spec_output;
use crate::random_generator::spec_step;
use crate::random_generator::RandomGenerator;
use crate::statistics::lemma_total_update;
use crate::statistics::saturating_inc;
use crate::statistics::spec_sat_inc;
use crate::statistics::spec_total;
use crate::statistics::Statistics;
use crate::statistics::StatisticsView;
use crate::MUTATION_RATE;
use crate::FAILED_KILL_PENALTY_DENOMINATOR;
use crate::FAILED_KILL_PENALTY_NUMERATOR;
use crate::POND_HEIGHT;
use crate::POND_WIDTH;

verus! {

/// The direction a running cell faces; neighbor interactions go this way.
#[derive(Clone, Copy, PartialEq, Eq, Structural, Debug)]
pub enum Facing {
    Up,
    Down,
    Right,
    Left,
}

/// The facing the low two bits of a register select.
pub open spec fn spec_facing_of(byte: u8) -> Facing {
    let n = byte & 0x3;
    if n == 0x0 {
        Facing::Left
    } else if n == 0x1 {
        Facing::Right
    } else if n == 0x2 {
        Facing::Up
    } else {
        Facing::Down
    }
}

impl Facing {
    /// Decodes the low two bits of a byte; the rest are ignored.
    pub fn from(byte: u8) -> (r: Facing)
        ensures
            r == spec_facing_of(byte),
    {
        let n = byte & 0x3;
        proof {
            assert(byte & 0x3 < 4) by (bit_vector);
        }
        if n == 0x0 {
            Facing::Left
        } else if n == 0x1 {
            Facing::Right
        } else if n == 0x2 {
            Facing::Up
        } else {
            Facing::Down
        }
    }
}

/// The transient state of one cell execution.
pub struct CellVM {
    pub cell: CellPosition,
    pub output_pointer: GenomePointer,
    pub input_pointer: GenomePointer,
    pub register: u8,
    pub output: Genome,
    pub facing: Facing,
    pub running: bool,
    pub loop_stack: Vec<GenomePointer>,
    pub loop_stack_depth: usize,
}

/// The ghost value of a virtual machine.
pub ghost struct CellVMView {
    pub cell: CellPosition,
    pub output_pointer: GenomePointer,
    pub input_pointer: GenomePointer,
    pub register: u8,
    pub output: Seq<u8>,
    pub facing: Facing,
    pub running: bool,
    pub loop_stack: Seq<GenomePointer>,
    pub loop_stack_depth: usize,
}

impl View for CellVM {
    type V = CellVMView;

    open spec fn view(&self) -> CellVMView {
        CellVMView {
            cell: self.cell,
            output_pointer: self.output_pointer,
            input_pointer: self.input_pointer,
            register: self.register,
            output: self.output@,
            facing: self.facing,
            running: self.running,
            loop_stack: self.loop_stack@,
            loop_stack_depth: self.loop_stack_depth,
        }
    }
}

/// Whether a position is one the machine may touch: its own cell or the
/// neighbor it currently faces.
pub open spec fn spec_touched(vm: CellVM, i: int, j: int) -> bool {
    (i == vm.cell.0 as int && j == vm.cell.1 as int) || {
        let np = spec_neighbor_position(vm.cell, vm.facing);
        i == np.0 as int && j == np.1 as int
    }
}

/// Whether a position is one a whole execution may touch: the bound cell or
/// any of its four adjacent positions, whatever the machine comes to face.
pub open spec fn spec_reachable(cell: CellPosition, i: int, j: int) -> bool {
    (i == cell.0 as int && j == cell.1 as int) || {
        let p = spec_neighbor_position(cell, Facing::Left);
        i == p.0 as int && j == p.1 as int
    } || {
        let p = spec_neighbor_position(cell, Facing::Right);
        i == p.0 as int && j == p.1 as int
    } || {
        let p = spec_neighbor_position(cell, Facing::Up);
        i == p.0 as int && j == p.1 as int
    } || {
        let p = spec_neighbor_position(cell, Facing::Down);
        i == p.0 as int && j == p.1 as int
    }
}

/// Whatever the machine faces, the position it may touch lies within reach
/// of its bound cell.
proof fn lemma_touched_within_reach(vm: CellVM, i: int, j: int)
    ensures
        spec_touched(vm, i, j) ==> spec_reachable(vm.cell, i, j),
{
}

/// A pond change confined to one position never robs a cell of founding its
/// own line, as long as the changed cell keeps founding its own when it did.
proof fn lemma_founds_preserved(pre: CellPond, post: CellPond, x: int, y: int)
    requires
        CellPond::same_except(pre, post, x, y),
        pre.spec_cell(x, y).founds_own_line() ==> post.spec_cell(x, y).founds_own_line(),
    ensures
        forall|i: int, j: int|
            0 <= i < POND_WIDTH && 0 <= j < POND_HEIGHT && (#[trigger] pre.spec_cell(
                i,
                j,
            )).founds_own_line() ==> (#[trigger] post.spec_cell(i, j)).founds_own_line(),
{
    assert forall|i: int, j: int|
        0 <= i < POND_WIDTH && 0 <= j < POND_HEIGHT && (#[trigger] pre.spec_cell(
        i,
        j,
    )).founds_own_line() implies (#[trigger] post.spec_cell(i, j)).founds_own_line() by {
        if !(i == x && j == y) {
            assert(post.spec_cell(i, j) == pre.spec_cell(i, j));
        }
    }
}

/// Everything one tick acts on, as one ghost value: the machine, the grid,
/// the id counter, the random stream and the statistics.
pub ghost struct TickState {
    pub vm: CellVMView,
    pub grid: Seq<Seq<CellView>>,
    pub ids: usize,
    pub rng: RandomGenerator,
    pub stats: StatisticsView,
}

/// The ghost value of a whole execution's state.
pub open spec fn spec_state_of(
    vm: CellVM,
    pond: CellPond,
    id_generator: CellIdGenerator,
    random_generator: RandomGenerator,
    statistics: Statistics,
) -> TickState {
    TickState {
        vm: vm@,
        grid: spec_grid_view(pond),
        ids: id_generator.current,
        rng: random_generator,
        stats: statistics@,
    }
}

/// The cell the machine is bound to.
pub open spec fn spec_bound_cell(s: TickState) -> CellView {
    grid_cell(s.grid, s.vm.cell)
}

/// A consistent execution state: a well-formed grid, the machine on it,
/// its cursors inside the genome, and a full counter row.
pub open spec fn spec_state_wf(s: TickState) -> bool {
    grid_wf(s.grid) && s.vm.cell.wf() && s.vm.input_pointer.wf() && s.vm.output_pointer.wf()
        && s.vm.register < 16 && s.vm.output.len() == GENOME_SIZE && (forall|i: int|
        0 <= i < s.vm.loop_stack.len() ==> (#[trigger] s.vm.loop_stack[i]).wf())
        && s.stats.instruction_executions.len() == 16
}

/// A well-formed machine, pond and statistics give a consistent execution
/// state.
pub proof fn lemma_state_wf_of(
    vm: CellVM,
    pond: CellPond,
    id_generator: CellIdGenerator,
    random_generator: RandomGenerator,
    statistics: Statistics,
)
    requires
        vm.wf(),
        pond.wf(),
        statistics.wf(),
    ensures
        spec_state_wf(
            spec_state_of(vm, pond, id_generator, random_generator, statistics),
        ),
{
    lemma_grid_view_cells(pond);
}

/// The mutation step of one tick: one word drawn; below the threshold, a
/// nibble and a coin follow, and the nibble lands in the genome at the
/// input cursor or in the register.
pub open spec fn spec_mutate(
    vm: CellVMView,
    grid: Seq<Seq<CellView>>,
    rng: RandomGenerator,
) -> (CellVMView, Seq<Seq<CellView>>, RandomGenerator) {
    let r0 = spec_output(rng);
    let g1 = spec_step(rng);
    if r0 >= MUTATION_RATE {
        (vm, grid, g1)
    } else {
        let m = (spec_output(g1) as u8) & 0x0f;
        let g2 = spec_step(g1);
        let heads = (spec_output(g2) & 0x80) > 0;
        if heads {
            let cell = grid_cell(grid, vm.cell);
            (
                vm,
                grid_with(
                    grid,
                    vm.cell.0 as int,
                    vm.cell.1 as int,
                    CellView { genome: spec_set(cell.genome, vm.input_pointer, m), ..cell },
                ),
                spec_step(g2),
            )
        } else {
            (CellVMView { register: m, ..vm }, grid, spec_step(g2))
        }
    }
}

/// The effect of one dispatched instruction on the whole state: the
/// functional form of the sixteen cases.
pub open spec fn spec_dispatch(s: TickState, instruction: Instruction) -> TickState {
    let cx = s.vm.cell.0 as int;
    let cy = s.vm.cell.1 as int;
    let cell = s.grid[cx][cy];
    match instruction {
        Instruction::Zero => TickState {
            vm: CellVMView {
                output_pointer: GenomePointer { array_pointer: 0, is_lower_byte: true },
                facing: Facing::Left,
                register: 0,
                ..s.vm
            },
            ..s
        },
        Instruction::Fwd => TickState {
            vm: CellVMView { output_pointer: spec_advance(s.vm.output_pointer), ..s.vm },
            ..s
        },
        Instruction::Back => TickState {
            vm: CellVMView { output_pointer: spec_retreat(s.vm.output_pointer), ..s.vm },
            ..s
        },
        Instruction::Inc => TickState {
            vm: CellVMView {
                register: if s.vm.register == 15 {
                    0u8
                } else {
                    (s.vm.register + 1) as u8
                },
                ..s.vm
            },
            ..s
        },
        Instruction::Dec => TickState {
            vm: CellVMView {
                register: if s.vm.register == 0 {
                    15u8
                } else {
                    (s.vm.register - 1) as u8
                },
                ..s.vm
            },
            ..s
        },
        Instruction::ReadGenome => TickState {
            vm: CellVMView { register: spec_get(cell.genome, s.vm.input_pointer), ..s.vm },
            ..s
        },
        Instruction::WriteGenome => TickState {
            grid: grid_with(
                s.grid,
                cx,
                cy,
                CellView {
                    genome: spec_set(cell.genome, s.vm.input_pointer, s.vm.register),
                    ..cell
                },
            ),
            ..s
        },
        Instruction::ReadBuffer => TickState {
            vm: CellVMView { register: spec_get(s.vm.output, s.vm.output_pointer), ..s.vm },
            ..s
        },
        Instruction::WriteBuffer => TickState {
            vm: CellVMView {
                output: spec_set(s.vm.output, s.vm.output_pointer, s.vm.register),
                ..s.vm
            },
            ..s
        },
        Instruction::Loop => TickState {
            vm: if s.vm.register == 0 {
                CellVMView { loop_stack_depth: 1usize, ..s.vm }
            } else {
                CellVMView { loop_stack: s.vm.loop_stack.push(s.vm.input_pointer), ..s.vm }
            },
            ..s
        },
        Instruction::Rep => TickState {
            vm: if s.vm.loop_stack.len() == 0 {
                s.vm
            } else {
                CellVMView {
                    loop_stack: s.vm.loop_stack.drop_last(),
                    input_pointer: if s.vm.register > 0 {
                        s.vm.loop_stack.last()
                    } else {
                        s.vm.input_pointer
                    },
                    ..s.vm
                }
            },
            ..s
        },
        Instruction::Turn => TickState {
            vm: CellVMView { facing: spec_facing_of(s.vm.register), ..s.vm },
            ..s
        },
        Instruction::Xchg => TickState {
            vm: CellVMView {
                register: spec_get(cell.genome, s.vm.input_pointer),
                input_pointer: spec_advance(s.vm.input_pointer),
                ..s.vm
            },
            grid: grid_with(
                s.grid,
                cx,
                cy,
                CellView {
                    genome: spec_set(cell.genome, s.vm.input_pointer, s.vm.register),
                    ..cell
                },
            ),
            ..s
        },
        Instruction::Kill => {
            let np = spec_neighbor_position(s.vm.cell, s.vm.facing);
            let nview = s.grid[np.0 as int][np.1 as int];
            let threshold = spec_output(s.rng) as u8;
            let stepped = TickState { rng: spec_step(s.rng), ..s };
            if spec_can_be_accessed(nview, s.vm.register, InteractionType::Negative, threshold) {
                let new_id = spec_next_id(s.ids);
                TickState {
                    ids: new_id,
                    stats: if nview.energy > 0 && nview.generation > 2 {
                        StatisticsView {
                            viable_cells_killed: spec_sat_inc(s.stats.viable_cells_killed),
                            ..s.stats
                        }
                    } else {
                        s.stats
                    },
                    grid: grid_with(
                        s.grid,
                        np.0 as int,
                        np.1 as int,
                        CellView {
                            id: new_id,
                            parent_id: None,
                            lineage: new_id,
                            generation: 0,
                            energy: nview.energy,
                            genome: nview.genome.update(0, 0xffu8).update(1, 0xffu8),
                        },
                    ),
                    ..stepped
                }
            } else {
                let e = cell.energy as int;
                let penalty = (e * FAILED_KILL_PENALTY_NUMERATOR) / (
                FAILED_KILL_PENALTY_DENOMINATOR as int);
                let drained = if e <= penalty {
                    0usize
                } else {
                    (e - penalty) as usize
                };
                TickState {
                    grid: grid_with(s.grid, cx, cy, CellView { energy: drained, ..cell }),
                    ..stepped
                }
            }
        },
        Instruction::Share => {
            let np = spec_neighbor_position(s.vm.cell, s.vm.facing);
            let nview = s.grid[np.0 as int][np.1 as int];
            let threshold = spec_output(s.rng) as u8;
            let stepped = TickState { rng: spec_step(s.rng), ..s };
            if spec_can_be_accessed(nview, s.vm.register, InteractionType::Positive, threshold) {
                let total = if cell.energy + nview.energy > usize::MAX {
                    usize::MAX as int
                } else {
                    cell.energy + nview.energy
                };
                let neighbor_share = total / 2;
                let cell_share = total - neighbor_share;
                let fed = grid_with(
                    s.grid,
                    np.0 as int,
                    np.1 as int,
                    CellView { energy: neighbor_share as usize, ..nview },
                );
                TickState {
                    stats: if nview.energy > 0 && nview.generation > 2 {
                        StatisticsView {
                            viable_cell_shares: spec_sat_inc(s.stats.viable_cell_shares),
                            ..s.stats
                        }
                    } else {
                        s.stats
                    },
                    grid: grid_with(
                        fed,
                        cx,
                        cy,
                        CellView { energy: cell_share as usize, ..fed[cx][cy] },
                    ),
                    ..stepped
                }
            } else {
                stepped
            }
        },
        Instruction::Stop => TickState { vm: CellVMView { running: false, ..s.vm }, ..s },
    }
}

/// One whole tick of the control loop: the mutation step, one unit of
/// energy consumed, a fetch at the input cursor with the cursor advanced,
/// the fetched code counted, and then either a dispatch or — inside a skip
/// — only the skip depth balanced.
pub open spec fn spec_tick(s: TickState) -> TickState {
    let mutated = spec_mutate(s.vm, s.grid, s.rng);
    let s1 = TickState { vm: mutated.0, grid: mutated.1, rng: mutated.2, ..s };
    let cx = s1.vm.cell.0 as int;
    let cy = s1.vm.cell.1 as int;
    let cell = s1.grid[cx][cy];
    let s2 = TickState {
        grid: grid_with(s1.grid, cx, cy, CellView { energy: (cell.energy - 1) as usize, ..cell }),
        ..s1
    };
    let nibble = spec_get(s2.grid[cx][cy].genome, s2.vm.input_pointer);
    let op = spec_instruction_of(nibble);
    let s3 = TickState {
        vm: CellVMView { input_pointer: spec_advance(s2.vm.input_pointer), ..s2.vm },
        stats: StatisticsView {
            instruction_executions: s2.stats.instruction_executions.update(
                spec_code(op),
                spec_sat_inc(s2.stats.instruction_executions[spec_code(op)]),
            ),
            ..s2.stats
        },
        ..s2
    };
    if s3.vm.loop_stack_depth == 0 {
        spec_dispatch(s3, op)
    } else if op == Instruction::Loop {
        TickState {
            vm: CellVMView { loop_stack_depth: spec_sat_inc(s3.vm.loop_stack_depth), ..s3.vm },
            ..s3
        }
    } else if op == Instruction::Rep {
        TickState {
            vm: CellVMView {
                loop_stack_depth: (s3.vm.loop_stack_depth - 1) as usize,
                ..s3.vm
            },
            ..s3
        }
    } else {
        s3
    }
}

/// A dispatched instruction never adds energy to the grid.
proof fn lemma_dispatch_energy(s: TickState, instruction: Instruction)
    requires
        s.grid.len() == POND_WIDTH,
        forall|x: int| 0 <= x < POND_WIDTH ==> (#[trigger] s.grid[x]).len() == POND_HEIGHT,
        s.vm.cell.wf(),
    ensures
        spec_view_energy(spec_dispatch(s, instruction).grid) <= spec_view_energy(s.grid),
{
    let cx = s.vm.cell.0 as int;
    let cy = s.vm.cell.1 as int;
    let cell = s.grid[cx][cy];
    let np = spec_neighbor_position(s.vm.cell, s.vm.facing);
    let nx = np.0 as int;
    let ny = np.1 as int;
    assert(np.wf());
    let nview = s.grid[nx][ny];
    match instruction {
        Instruction::WriteGenome => {
            lemma_view_energy_update(
                s.grid,
                cx,
                cy,
                CellView {
                    genome: spec_set(cell.genome, s.vm.input_pointer, s.vm.register),
                    ..cell
                },
            );
        },
        Instruction::Xchg => {
            lemma_view_energy_update(
                s.grid,
                cx,
                cy,
                CellView {
                    genome: spec_set(cell.genome, s.vm.input_pointer, s.vm.register),
                    ..cell
                },
            );
        },
        Instruction::Kill => {
            let threshold = spec_output(s.rng) as u8;
            if spec_can_be_accessed(nview, s.vm.register, InteractionType::Negative, threshold) {
                let new_id = spec_next_id(s.ids);
                lemma_view_energy_update(
                    s.grid,
                    nx,
                    ny,
                    CellView {
                        id: new_id,
                        parent_id: None,
                        lineage: new_id,
                        generation: 0,
                        energy: nview.energy,
                        genome: nview.genome.update(0, 0xffu8).update(1, 0xffu8),
                    },
                );
            } else {
                let e = cell.energy as int;
                let penalty = (e * FAILED_KILL_PENALTY_NUMERATOR) / (
                FAILED_KILL_PENALTY_DENOMINATOR as int);
                vstd::arithmetic::div_mod::lemma_div_pos_is_pos(
                    e * FAILED_KILL_PENALTY_NUMERATOR,
                    FAILED_KILL_PENALTY_DENOMINATOR as int,
                );
                let drained = if e <= penalty {
                    0usize
                } else {
                    (e - penalty) as usize
                };
                lemma_view_energy_update(s.grid, cx, cy, CellView { energy: drained, ..cell });
            }
        },
        Instruction::Share => {
            let threshold = spec_output(s.rng) as u8;
            if spec_can_be_accessed(nview, s.vm.register, InteractionType::Positive, threshold) {
                let total = if cell.energy + nview.energy > usize::MAX {
                    usize::MAX as int
                } else {
                    cell.energy + nview.energy
                };
                let neighbor_share = total / 2;
                let cell_share = total - neighbor_share;
                vstd::arithmetic::div_mod::lemma_fundamental_div_mod(total, 2);
                let fed = grid_with(
                    s.grid,
                    nx,
                    ny,
                    CellView { energy: neighbor_share as usize, ..nview },
                );
                lemma_view_energy_update(
                    s.grid,
                    nx,
                    ny,
                    CellView { energy: neighbor_share as usize, ..nview },
                );
                lemma_view_energy_update(
                    fed,
                    cx,
                    cy,
                    CellView { energy: cell_share as usize, ..fed[cx][cy] },
                );
            }
        },
        _ => {},
    }
}

/// One tick always costs the grid at least the one unit of energy it
/// consumes.
proof fn lemma_tick_energy(s: TickState)
    requires
        spec_state_wf(s),
        spec_bound_cell(s).energy > 0,
    ensures
        spec_view_energy(spec_tick(s).grid) <= spec_view_energy(s.grid) - 1,
{
    let cx = s.vm.cell.0 as int;
    let cy = s.vm.cell.1 as int;
    let mutated = spec_mutate(s.vm, s.grid, s.rng);
    let s1 = TickState { vm: mutated.0, grid: mutated.1, rng: mutated.2, ..s };
    if spec_output(s.rng) < MUTATION_RATE && (spec_output(spec_step(spec_step(s.rng))) & 0x80)
        > 0 {
        lemma_view_energy_update(
            s.grid,
            cx,
            cy,
            CellView {
                genome: spec_set(spec_bound_cell(s).genome, s.vm.input_pointer, (spec_output(
                    spec_step(s.rng),
                ) as u8) & 0x0f),
                ..spec_bound_cell(s)
            },
        );
    }
    assert(spec_view_energy(s1.grid) == spec_view_energy(s.grid));
    assert(s1.grid.len() == POND_WIDTH && forall|x: int|
        0 <= x < POND_WIDTH ==> (#[trigger] s1.grid[x]).len() == POND_HEIGHT);
    let cell = s1.grid[cx][cy];
    assert(cell.energy == spec_bound_cell(s).energy);
    let s2 = TickState {
        grid: grid_with(s1.grid, cx, cy, CellView { energy: (cell.energy - 1) as usize, ..cell }),
        ..s1
    };
    lemma_view_energy_update(
        s1.grid,
        cx,
        cy,
        CellView { energy: (cell.energy - 1) as usize, ..cell },
    );
    assert(spec_view_energy(s2.grid) == spec_view_energy(s.grid) - 1);
    assert(s2.grid.len() == POND_WIDTH && forall|x: int|
        0 <= x < POND_WIDTH ==> (#[trigger] s2.grid[x]).len() == POND_HEIGHT);
    let nibble = spec_get(s2.grid[cx][cy].genome, s2.vm.input_pointer);
    let op = spec_instruction_of(nibble);
    let s3 = TickState {
        vm: CellVMView { input_pointer: spec_advance(s2.vm.input_pointer), ..s2.vm },
        stats: StatisticsView {
            instruction_executions: s2.stats.instruction_executions.update(
                spec_code(op),
                spec_sat_inc(s2.stats.instruction_executions[spec_code(op)]),
            ),
            ..s2.stats
        },
        ..s2
    };
    if s3.vm.loop_stack_depth == 0 {
        lemma_dispatch_energy(s3, op);
    }
}

/// One tick counts exactly one fetch: the counter row's total rises by at
/// most one, and by exactly one until a bin saturates.
proof fn lemma_tick_counter(s: TickState)
    requires
        spec_state_wf(s),
    ensures
        spec_total(spec_tick(s).stats.instruction_executions) <= spec_total(
            s.stats.instruction_executions,
        ) + 1,
{
    let mutated = spec_mutate(s.vm, s.grid, s.rng);
    let s1 = TickState { vm: mutated.0, grid: mutated.1, rng: mutated.2, ..s };
    let cx = s1.vm.cell.0 as int;
    let cy = s1.vm.cell.1 as int;
    let cell = s1.grid[cx][cy];
    let s2 = TickState {
        grid: grid_with(s1.grid, cx, cy, CellView { energy: (cell.energy - 1) as usize, ..cell }),
        ..s1
    };
    let nibble = spec_get(s2.grid[cx][cy].genome, s2.vm.input_pointer);
    let op = spec_instruction_of(nibble);
    let code = spec_code(op);
    assert(0 <= code < 16);
    lemma_total_update(
        s2.stats.instruction_executions,
        code,
        spec_sat_inc(s2.stats.instruction_executions[code]),
    );
}

/// The control loop as a function: tick after tick while the bound cell
/// holds energy and the machine runs, on any consistent state.
pub open spec fn spec_run_loop(s: TickState) -> TickState
    decreases spec_view_energy(s.grid)
        via spec_run_loop_decreases
{
    if spec_state_wf(s) && spec_bound_cell(s).energy > 0 && s.vm.running {
        spec_run_loop(spec_tick(s))
    } else {
        s
    }
}

#[via_fn]
proof fn spec_run_loop_decreases(s: TickState) {
    if spec_state_wf(s) && spec_bound_cell(s).energy > 0 && s.vm.running {
        lemma_tick_energy(s);
        lemma_view_energy_nonneg(spec_tick(s).grid);
        lemma_view_energy_nonneg(s.grid);
    }
}

/// Over a whole run of the control loop the instruction counters rise by
/// at most the energy the grid loses: every fetch costs at least one unit.
/// This is the sound form of a bound on dispatches per execution — a cell
/// that absorbs energy through `Share` can outlive its own initial store,
/// but never the energy within its reach.
pub proof fn lemma_run_loop_fetch_bound(s: TickState)
    ensures
        spec_total(spec_run_loop(s).stats.instruction_executions) - spec_total(
            s.stats.instruction_executions,
        ) <= spec_view_energy(s.grid) - spec_view_energy(spec_run_loop(s).grid),
    decreases spec_view_energy(s.grid),
{
    if spec_state_wf(s) && spec_bound_cell(s).energy > 0 && s.vm.running {
        lemma_tick_energy(s);
        lemma_view_energy_nonneg(spec_tick(s).grid);
        lemma_view_energy_nonneg(s.grid);
        lemma_tick_counter(s);
        lemma_run_loop_fetch_bound(spec_tick(s));
    }
}

/// The reproduction step: a live neighbor, a started output and a passed
/// negative access check hand the neighbor the output genome, a fresh id,
/// this cell as parent and one more generation, keeping its energy.
pub open spec fn spec_reproduce(s: TickState) -> TickState {
    let cell = s.grid[s.vm.cell.0 as int][s.vm.cell.1 as int];
    let np = spec_neighbor_position(s.vm.cell, s.vm.facing);
    let nview = s.grid[np.0 as int][np.1 as int];
    if nview.energy > 0 && s.vm.output[0] != 0xff {
        let threshold = spec_output(s.rng) as u8;
        let stepped = TickState { rng: spec_step(s.rng), ..s };
        if spec_can_be_accessed(nview, s.vm.register, InteractionType::Negative, threshold) {
            let new_id = spec_next_id(s.ids);
            TickState {
                ids: new_id,
                stats: if nview.energy > 0 && nview.generation > 2 {
                    StatisticsView {
                        viable_cell_replaced: spec_sat_inc(s.stats.viable_cell_replaced),
                        ..s.stats
                    }
                } else {
                    s.stats
                },
                grid: grid_with(
                    s.grid,
                    np.0 as int,
                    np.1 as int,
                    CellView {
                        id: new_id,
                        parent_id: Some(cell.id),
                        lineage: cell.lineage,
                        generation: (cell.generation + 1) as usize,
                        energy: nview.energy,
                        genome: s.vm.output,
                    },
                ),
                ..stepped
            }
        } else {
            stepped
        }
    } else {
        s
    }
}

/// A whole execution as a function: the cell-execution counter bumped, the
/// control loop run to rest, and reproduction attempted once.
pub open spec fn spec_execute(s: TickState) -> TickState {
    let entered = TickState {
        stats: StatisticsView {
            cell_executions: spec_sat_inc(s.stats.cell_executions),
            ..s.stats
        },
        ..s
    };
    spec_reproduce(spec_run_loop(entered))
}

impl CellVM {
    /// The machine's state stays consistent: its position on the grid, its
    /// cursors inside the genome, its register a nibble, its output genome
    /// full-length, and every saved loop cursor inside the genome.
    pub open spec fn wf(self) -> bool {
        self.cell.wf() && self.output_pointer.wf() && self.input_pointer.wf() && self.register < 16
            && self.output.wf() && forall|i: int|
            0 <= i < self.loop_stack@.len() ==> (#[trigger] self.loop_stack@[i]).wf()
    }

    /// A machine bound to one grid position, with both cursors at the first
    /// nibble, a zero register, an inert output, facing left, running, and
    /// an empty loop stack.
    pub fn new(cell: CellPosition) -> (vm: CellVM)
        requires
            cell.wf(),
        ensures
            vm@ == (CellVMView {
                cell,
                output_pointer: GenomePointer { array_pointer: 0, is_lower_byte: true },
                input_pointer: GenomePointer { array_pointer: 0, is_lower_byte: true },
                register: 0,
                output: spec_inert_genome(),
                facing: Facing::Left,
                running: true,
                loop_stack: Seq::empty(),
                loop_stack_depth: 0,
            }),
            vm.wf(),
    {
        CellVM {
            cell,
            output_pointer: GenomePointer::new(0, true),
            input_pointer: GenomePointer::new(0, true),
            register: 0,
            output: Genome::new(),
            facing: Facing::Left,
            running: true,
            loop_stack: Vec::new(),
            loop_stack_depth: 0,
        }
    }

    /// Draws one threshold word and asks the faced neighbor whether the
    /// interaction goes through.
    pub fn can_access_neighbor(
        &self,
        pond: &CellPond,
        random_generator: &mut RandomGenerator,
        interaction: InteractionType,
    ) -> (r: bool)
        requires
            self.wf(),
            pond.wf(),
        ensures
            *final(random_generator) == spec_step(*old(random_generator)),
            ({
                let np = spec_neighbor_position(self.cell, self.facing);
                r == spec_can_be_accessed(
                    pond.spec_cell(np.0 as int, np.1 as int),
                    self.register,
                    interaction,
                    spec_output(*old(random_generator)) as u8,
                )
            }),
    {
        let threshold = random_generator.generate_integer() as u8;
        pond.get_neighbor(&self.cell, &self.facing).can_be_accessed(
            self.register,
            interaction,
            threshold,
        )
    }

    /// Draws one word; below the mutation threshold it draws a nibble and a
    /// coin, and either writes the nibble into the cell's genome at the
    /// input cursor or loads it into the register.
    pub fn maybe_mutate(&mut self, pond: &mut CellPond, random_generator: &mut RandomGenerator)
        requires
            old(self).wf(),
            old(pond).wf(),
        ensures
            final(self).wf(),
            final(pond).wf(),
            spec_pond_energy(*final(pond)) == spec_pond_energy(*old(pond)),
            forall|i: int, j: int|
                0 <= i < POND_WIDTH && 0 <= j < POND_HEIGHT && (#[trigger] old(pond).spec_cell(
                    i,
                    j,
                )).founds_own_line() ==> (#[trigger] final(pond).spec_cell(
                    i,
                    j,
                )).founds_own_line(),
            spec_mutate(old(self)@, spec_grid_view(*old(pond)), *old(random_generator)) == (
                final(self)@,
                spec_grid_view(*final(pond)),
                *final(random_generator),
            ),
            ({
                let cx = old(self).cell.0 as int;
                let cy = old(self).cell.1 as int;
                let r0 = spec_output(*old(random_generator));
                let g1 = spec_step(*old(random_generator));
                if r0 >= MUTATION_RATE {
                    *final(random_generator) == g1 && *final(pond) == *old(pond) && *final(self)
                        == *old(self)
                } else {
                    let m = (spec_output(g1) as u8) & 0x0f;
                    let g2 = spec_step(g1);
                    let heads = (spec_output(g2) & 0x80) > 0;
                    *final(random_generator) == spec_step(g2) && if heads {
                        *final(self) == *old(self) && CellPond::same_except(
                            *old(pond),
                            *final(pond),
                            cx,
                            cy,
                        ) && final(pond).spec_cell(cx, cy) == (CellView {
                            genome: spec_set(
                                old(pond).spec_cell(cx, cy).genome,
                                old(self).input_pointer,
                                m,
                            ),
                            ..old(pond).spec_cell(cx, cy)
                        })
                    } else {
                        *final(pond) == *old(pond) && final(self)@ == (CellVMView {
                            register: m,
                            ..old(self)@
                        })
                    }
                }
            }),
    {
        let r0 = random_generator.generate_integer();
        if r0 < MUTATION_RATE {
            let w = random_generator.generate_integer();
            let m = (w as u8) & 0x0f;
            proof {
                let wu = w as u8;
                assert(wu & 0x0f < 16) by (bit_vector);
            }
            let heads = random_generator.generate_boolean();
            if heads {
                pond.genome_set(&self.cell, &self.input_pointer, m);
                proof {
                    lemma_founds_preserved(
                        *old(pond),
                        *pond,
                        old(self).cell.0 as int,
                        old(self).cell.1 as int,
                    );
                    lemma_grid_view_cells(*old(pond));
                    lemma_grid_view_update(
                        *old(pond),
                        *pond,
                        old(self).cell.0 as int,
                        old(self).cell.1 as int,
                    );
                }
            } else {
                self.register = m;
            }
        }
    }

    /// Runs one already-fetched instruction against the machine, the pond,
    /// the id well, the random stream and the statistics.
    ///
    /// After `Zero` the output cursor is back at the first nibble, the
    /// machine faces left, and the register is zero.
    #[verifier::rlimit(60)]
    pub fn execute_instruction(
        &mut self,
        pond: &mut CellPond,
        id_generator: &mut CellIdGenerator,
        random_generator: &mut RandomGenerator,
        statistics: &mut Statistics,
        instruction: Instruction,
    )
        requires
            old(self).wf(),
            old(pond).wf(),
            old(statistics).wf(),
        ensures
            final(self).wf(),
            final(pond).wf(),
            final(statistics).wf(),
            final(self).cell == old(self).cell,
            spec_pond_energy(*final(pond)) <= spec_pond_energy(*old(pond)),
            final(pond).spec_cell(old(self).cell.0 as int, old(self).cell.1 as int).generation
                <= old(pond).spec_cell(old(self).cell.0 as int, old(self).cell.1 as int).generation,
            final(statistics)@.clock == old(statistics)@.clock,
            final(statistics)@.cell_executions == old(statistics)@.cell_executions,
            final(statistics)@.instruction_executions == old(statistics)@.instruction_executions,
            final(statistics)@.viable_cells_killed >= old(statistics)@.viable_cells_killed,
            final(statistics)@.viable_cell_shares >= old(statistics)@.viable_cell_shares,
            final(statistics)@.viable_cell_replaced == old(statistics)@.viable_cell_replaced,
            forall|i: int, j: int|
                0 <= i < POND_WIDTH && 0 <= j < POND_HEIGHT && !spec_touched(*old(self), i, j)
                    ==> final(pond).spec_cell(i, j) == old(pond).spec_cell(i, j),
            forall|i: int, j: int|
                0 <= i < POND_WIDTH && 0 <= j < POND_HEIGHT && (#[trigger] old(pond).spec_cell(
                    i,
                    j,
                )).founds_own_line() ==> (#[trigger] final(pond).spec_cell(
                    i,
                    j,
                )).founds_own_line(),
            spec_state_of(
                *final(self),
                *final(pond),
                *final(id_generator),
                *final(random_generator),
                *final(statistics),
            ) == spec_dispatch(
                spec_state_of(
                    *old(self),
                    *old(pond),
                    *old(id_generator),
                    *old(random_generator),
                    *old(statistics),
                ),
                instruction,
            ),
            (instruction == Instruction::Zero ==> *final(pond) == *old(pond) && *final(id_generator) == *old(id_generator) && *final(random_generator) == *old(random_generator) && *final(statistics) == *old(statistics) && final(self)@ == (CellVMView {
                output_pointer: GenomePointer { array_pointer: 0, is_lower_byte: true },
                facing: Facing::Left,
                register: 0,
                ..old(self)@
            })),
            (instruction == Instruction::Fwd ==> *final(pond) == *old(pond) && *final(id_generator)
                == *old(id_generator) && *final(random_generator) == *old(random_generator)
                && *final(statistics) == *old(statistics) && final(self)@ == (CellVMView {
                output_pointer: spec_advance(old(self).output_pointer),
                ..old(self)@
            })),
            (instruction == Instruction::Back ==> *final(pond) == *old(pond) && *final(id_generator) == *old(id_generator) && *final(random_generator) == *old(random_generator) && *final(statistics) == *old(statistics) && final(self)@ == (CellVMView {
                output_pointer: spec_retreat(old(self).output_pointer),
                ..old(self)@
            })),
            (instruction == Instruction::Inc ==> *final(pond) == *old(pond) && *final(id_generator)
                == *old(id_generator) && *final(random_generator) == *old(random_generator)
                && *final(statistics) == *old(statistics) && final(self)@ == (CellVMView {
                register: if old(self).register == 15 {
                    0u8
                } else {
                    (old(self).register + 1) as u8
                },
                ..old(self)@
            })),
            (instruction == Instruction::Dec ==> *final(pond) == *old(pond) && *final(id_generator)
                == *old(id_generator) && *final(random_generator) == *old(random_generator)
                && *final(statistics) == *old(statistics) && final(self)@ == (CellVMView {
                register: if old(self).register == 0 {
                    15u8
                } else {
                    (old(self).register - 1) as u8
                },
                ..old(self)@
            })),
            (instruction == Instruction::ReadGenome ==> *final(pond) == *old(pond) && *final(id_generator) == *old(id_generator) && *final(random_generator) == *old(random_generator) && *final(statistics) == *old(statistics) && final(self)@ == (CellVMView {
                register: spec_get(
                    old(pond).spec_cell(old(self).cell.0 as int, old(self).cell.1 as int).genome,
                    old(self).input_pointer,
                ),
                ..old(self)@
            })),
            (instruction == Instruction::WriteGenome ==> *final(self) == *old(self) && *final(id_generator) == *old(id_generator) && *final(random_generator) == *old(random_generator) && *final(statistics) == *old(statistics) && CellPond::same_except(
                *old(pond),
                *final(pond),
                old(self).cell.0 as int,
                old(self).cell.1 as int,
            ) && final(pond).spec_cell(old(self).cell.0 as int, old(self).cell.1 as int)
                == (CellView {
                genome: spec_set(
                    old(pond).spec_cell(old(self).cell.0 as int, old(self).cell.1 as int).genome,
                    old(self).input_pointer,
                    old(self).register,
                ),
                ..old(pond).spec_cell(old(self).cell.0 as int, old(self).cell.1 as int)
            })),
            (instruction == Instruction::ReadBuffer ==> *final(pond) == *old(pond) && *final(id_generator) == *old(id_generator) && *final(random_generator) == *old(random_generator) && *final(statistics) == *old(statistics) && final(self)@ == (CellVMView {
                register: spec_get(old(self)@.output, old(self).output_pointer),
                ..old(self)@
            })),
            (instruction == Instruction::WriteBuffer ==> *final(pond) == *old(pond) && *final(id_generator) == *old(id_generator) && *final(random_generator) == *old(random_generator) && *final(statistics) == *old(statistics) && final(self)@ == (CellVMView {
                output: spec_set(
                    old(self)@.output,
                    old(self).output_pointer,
                    old(self).register,
                ),
                ..old(self)@
            })),
            (instruction == Instruction::Loop ==> *final(pond) == *old(pond) && *final(id_generator) == *old(id_generator) && *final(random_generator) == *old(random_generator) && *final(statistics) == *old(statistics) && final(self)@ == (if old(self).register == 0 {
                CellVMView { loop_stack_depth: 1usize, ..old(self)@ }
            } else {
                CellVMView {
                    loop_stack: old(self)@.loop_stack.push(old(self).input_pointer),
                    ..old(self)@
                }
            })),
            (instruction == Instruction::Rep ==> *final(pond) == *old(pond) && *final(id_generator)
                == *old(id_generator) && *final(random_generator) == *old(random_generator)
                && *final(statistics) == *old(statistics) && final(self)@ == (if old(self)@.loop_stack.len() == 0 {
                old(self)@
            } else {
                CellVMView {
                    loop_stack: old(self)@.loop_stack.drop_last(),
                    input_pointer: if old(self).register > 0 {
                        old(self)@.loop_stack.last()
                    } else {
                        old(self).input_pointer
                    },
                    ..old(self)@
                }
            })),
            (instruction == Instruction::Turn ==> *final(pond) == *old(pond) && *final(id_generator) == *old(id_generator) && *final(random_generator) == *old(random_generator) && *final(statistics) == *old(statistics) && final(self)@ == (CellVMView {
                facing: spec_facing_of(old(self).register),
                ..old(self)@
            })),
            (instruction == Instruction::Xchg ==> *final(id_generator) == *old(id_generator)
                && *final(random_generator) == *old(random_generator) && *final(statistics)
                == *old(statistics) && final(self)@ == (CellVMView {
                register: spec_get(
                    old(pond).spec_cell(old(self).cell.0 as int, old(self).cell.1 as int).genome,
                    old(self).input_pointer,
                ),
                input_pointer: spec_advance(old(self).input_pointer),
                ..old(self)@
            }) && CellPond::same_except(
                *old(pond),
                *final(pond),
                old(self).cell.0 as int,
                old(self).cell.1 as int,
            ) && final(pond).spec_cell(old(self).cell.0 as int, old(self).cell.1 as int)
                == (CellView {
                genome: spec_set(
                    old(pond).spec_cell(old(self).cell.0 as int, old(self).cell.1 as int).genome,
                    old(self).input_pointer,
                    old(self).register,
                ),
                ..old(pond).spec_cell(old(self).cell.0 as int, old(self).cell.1 as int)
            })),
            (instruction == Instruction::Kill ==> *final(self) == *old(self) && *final(random_generator) == spec_step(*old(random_generator)) && ({
                let cx = old(self).cell.0 as int;
                let cy = old(self).cell.1 as int;
                let np = spec_neighbor_position(old(self).cell, old(self).facing);
                let nx = np.0 as int;
                let ny = np.1 as int;
                let nview = old(pond).spec_cell(nx, ny);
                let threshold = spec_output(*old(random_generator)) as u8;
                if spec_can_be_accessed(
                    nview,
                    old(self).register,
                    InteractionType::Negative,
                    threshold,
                ) {
                    final(id_generator).current == spec_next_id(old(id_generator).current)
                        && final(statistics)@ == (if nview.energy > 0 && nview.generation > 2 {
                        StatisticsView {
                            viable_cells_killed: spec_sat_inc(
                                old(statistics)@.viable_cells_killed,
                            ),
                            ..old(statistics)@
                        }
                    } else {
                        old(statistics)@
                    }) && CellPond::same_except(*old(pond), *final(pond), nx, ny) && final(pond).spec_cell(nx, ny) == (CellView {
                        id: spec_next_id(old(id_generator).current),
                        parent_id: None,
                        lineage: spec_next_id(old(id_generator).current),
                        generation: 0,
                        energy: nview.energy,
                        genome: nview.genome.update(0, 0xffu8).update(1, 0xffu8),
                    })
                } else {
                    *final(id_generator) == *old(id_generator) && *final(statistics) == *old(statistics) && CellPond::same_except(*old(pond), *final(pond), cx, cy) && final(pond).spec_cell(cx, cy) == (CellView {
                        energy: ({
                            let e = old(pond).spec_cell(cx, cy).energy as int;
                            let penalty = (e * FAILED_KILL_PENALTY_NUMERATOR)
                                / (FAILED_KILL_PENALTY_DENOMINATOR as int);
                            if e <= penalty {
                                0usize
                            } else {
                                (e - penalty) as usize
                            }
                        }),
                        ..old(pond).spec_cell(cx, cy)
                    })
                }
            })),
            (instruction == Instruction::Share ==> *final(self) == *old(self) && *final(id_generator) == *old(id_generator) && *final(random_generator) == spec_step(
                *old(random_generator),
            ) && ({
                let cx = old(self).cell.0 as int;
                let cy = old(self).cell.1 as int;
                let np = spec_neighbor_position(old(self).cell, old(self).facing);
                let nx = np.0 as int;
                let ny = np.1 as int;
                let nview = old(pond).spec_cell(nx, ny);
                let threshold = spec_output(*old(random_generator)) as u8;
                if spec_can_be_accessed(
                    nview,
                    old(self).register,
                    InteractionType::Positive,
                    threshold,
                ) {
                    let total = if old(pond).spec_cell(cx, cy).energy + nview.energy > usize::MAX {
                        usize::MAX as int
                    } else {
                        old(pond).spec_cell(cx, cy).energy + nview.energy
                    };
                    let neighbor_share = total / 2;
                    let cell_share = total - neighbor_share;
                    final(statistics)@ == (if nview.energy > 0 && nview.generation > 2 {
                        StatisticsView {
                            viable_cell_shares: spec_sat_inc(old(statistics)@.viable_cell_shares),
                            ..old(statistics)@
                        }
                    } else {
                        old(statistics)@
                    }) && if nx == cx && ny == cy {
                        CellPond::same_except(*old(pond), *final(pond), cx, cy) && final(pond).spec_cell(cx, cy) == (CellView {
                            energy: cell_share as usize,
                            ..old(pond).spec_cell(cx, cy)
                        })
                    } else {
                        (forall|i: int, j: int|
                            0 <= i < POND_WIDTH && 0 <= j < POND_HEIGHT && !(i == cx && j == cy)
                                && !(i == nx && j == ny) ==> #[trigger] final(pond).spec_cell(i, j)
                                == old(pond).spec_cell(i, j)) && final(pond).spec_cell(nx, ny)
                            == (CellView { energy: neighbor_share as usize, ..nview }) && final(pond).spec_cell(cx, cy) == (CellView {
                            energy: cell_share as usize,
                            ..old(pond).spec_cell(cx, cy)
                        })
                    }
                } else {
                    *final(statistics) == *old(statistics) && *final(pond) == *old(pond)
                }
            })),
            (instruction == Instruction::Stop ==> *final(pond) == *old(pond) && *final(id_generator) == *old(id_generator) && *final(random_generator) == *old(random_generator) && *final(statistics) == *old(statistics) && final(self)@ == (CellVMView { running: false, ..old(self)@ })),
    {
        proof {
            lemma_grid_view_cells(*old(pond));
        }
        match instruction {
            Instruction::Zero => {
                self.output_pointer.array_pointer = 0;
                self.output_pointer.is_lower_byte = true;
                self.facing = Facing::Left;
                self.register = 0;
            },
            Instruction::Fwd => {
                self.output_pointer.next();
            },
            Instruction::Back => {
                self.output_pointer.prev();
            },
            Instruction::Inc => {
                let ghost r = self.register;
                self.register = (self.register + 1) & 0x0f;
                proof {
                    assert(r < 16 ==> ((r + 1) as u8 & 0x0f) == (if r == 15 {
                        0u8
                    } else {
                        (r + 1) as u8
                    })) by (bit_vector);
                }
            },
            Instruction::Dec => {
                let ghost r = self.register;
                self.register = self.register.wrapping_sub(1) & 0x0f;
                proof {
                    assert(r < 16 ==> (r.wrapping_sub(1) & 0x0f) == (if r == 0 {
                        15u8
                    } else {
                        (r - 1) as u8
                    })) by (bit_vector);
                }
            },
            Instruction::ReadGenome => {
                self.register = pond.cell(&self.cell).genome.get(&self.input_pointer);
            },
            Instruction::WriteGenome => {
                pond.genome_set(&self.cell, &self.input_pointer, self.register);
                proof {
                    lemma_founds_preserved(
                        *old(pond),
                        *pond,
                        old(self).cell.0 as int,
                        old(self).cell.1 as int,
                    );
                    lemma_grid_view_update(
                        *old(pond),
                        *pond,
                        old(self).cell.0 as int,
                        old(self).cell.1 as int,
                    );
                }
            },
            Instruction::ReadBuffer => {
                self.register = self.output.get(&self.output_pointer);
            },
            Instruction::WriteBuffer => {
                let register = self.register;
                self.output.set(&self.output_pointer, register);
            },
            Instruction::Loop => {
                if self.register == 0 {
                    self.loop_stack_depth = 1;
                } else {
                    let pointer = self.input_pointer;
                    self.loop_stack.push(pointer);
                }
            },
            Instruction::Rep => {
                if let Some(input_pointer) = self.loop_stack.pop() {
                    if self.register > 0 {
                        self.input_pointer = input_pointer;
                    }
                }
            },
            Instruction::Turn => {
                self.facing = Facing::from(self.register);
            },
            Instruction::Xchg => {
                let register = self.register;
                self.register = pond.cell(&self.cell).genome.get(&self.input_pointer);
                pond.genome_set(&self.cell, &self.input_pointer, register);
                self.input_pointer.next();
                proof {
                    lemma_founds_preserved(
                        *old(pond),
                        *pond,
                        old(self).cell.0 as int,
                        old(self).cell.1 as int,
                    );
                    lemma_grid_view_update(
                        *old(pond),
                        *pond,
                        old(self).cell.0 as int,
                        old(self).cell.1 as int,
                    );
                }
            },
            Instruction::Kill => {
                if self.can_access_neighbor(pond, random_generator, InteractionType::Negative) {
                    let np = neighbor_position(&self.cell, &self.facing);
                    let victim = pond.cell(&np);
                    if victim.energy > 0 && victim.generation > 2 {
                        statistics.viable_cells_killed = saturating_inc(
                            statistics.viable_cells_killed,
                        );
                    }
                    let new_id = id_generator.next();
                    pond.wipe(&np, new_id);
                    proof {
                        lemma_founds_preserved(*old(pond), *pond, np.0 as int, np.1 as int);
                        lemma_grid_view_update(*old(pond), *pond, np.0 as int, np.1 as int);
                    }
                } else {
                    let cell_energy = pond.cell(&self.cell).energy;
                    let penalty = (cell_energy * FAILED_KILL_PENALTY_NUMERATOR)
                        / FAILED_KILL_PENALTY_DENOMINATOR;
                    let new_energy = if cell_energy <= penalty {
                        0
                    } else {
                        cell_energy - penalty
                    };
                    pond.set_energy(&self.cell, new_energy);
                    proof {
                        lemma_founds_preserved(
                            *old(pond),
                            *pond,
                            old(self).cell.0 as int,
                            old(self).cell.1 as int,
                        );
                        lemma_grid_view_update(
                            *old(pond),
                            *pond,
                            old(self).cell.0 as int,
                            old(self).cell.1 as int,
                        );
                    }
                }
            },
            Instruction::Share => {
                if self.can_access_neighbor(pond, random_generator, InteractionType::Positive) {
                    let cell_energy = pond.cell(&self.cell).energy;
                    let np = neighbor_position(&self.cell, &self.facing);
                    let neighbor_energy = pond.cell(&np).energy;
                    let total_energy = cell_energy.saturating_add(neighbor_energy);
                    let new_neighbor_energy = total_energy / 2;
                    let new_cell_energy = total_energy - new_neighbor_energy;
                    if neighbor_energy > 0 && pond.cell(&np).generation > 2 {
                        statistics.viable_cell_shares = saturating_inc(
                            statistics.viable_cell_shares,
                        );
                    }
                    pond.set_energy(&np, new_neighbor_energy);
                    let ghost mid = *pond;
                    pond.set_energy(&self.cell, new_cell_energy);
                    proof {
                        lemma_founds_preserved(*old(pond), mid, np.0 as int, np.1 as int);
                        lemma_founds_preserved(
                            mid,
                            *pond,
                            old(self).cell.0 as int,
                            old(self).cell.1 as int,
                        );
                        lemma_grid_view_update(*old(pond), mid, np.0 as int, np.1 as int);
                        lemma_grid_view_cells(mid);
                        lemma_grid_view_update(
                            mid,
                            *pond,
                            old(self).cell.0 as int,
                            old(self).cell.1 as int,
                        );
                        assert forall|i: int, j: int|
                            0 <= i < POND_WIDTH && 0 <= j < POND_HEIGHT && (#[trigger] old(pond).spec_cell(i, j)).founds_own_line() implies (#[trigger] pond.spec_cell(
                            i,
                            j,
                        )).founds_own_line() by {
                            assert(mid.spec_cell(i, j).founds_own_line());
                        }
                    }
                }
            },
            Instruction::Stop => {
                self.running = false;
            },
        }
    }

    /// Runs the machine to completion. While the bound cell holds energy
    /// and the machine runs, each tick may mutate the genome or register,
    /// costs one unit of energy, fetches the nibble at the input cursor,
    /// counts it, and dispatches it — unless a skip is open, in which case
    /// the nibble only balances the skip depth. Reproduction is attempted
    /// once afterwards. The machine touches no cell but its own and the
    /// four adjacent ones, it never robs a cell of founding its own line,
    /// and the pond's total energy never grows. The whole effect is pinned
    /// down: the final machine, pond, id counter, random stream and
    /// statistics are exactly `spec_execute` of their initial values.
    pub fn execute(
        &mut self,
        pond: &mut CellPond,
        id_generator: &mut CellIdGenerator,
        random_generator: &mut RandomGenerator,
        statistics: &mut Statistics,
    )
        requires
            old(self).wf(),
            old(pond).wf(),
            old(statistics).wf(),
            old(pond).spec_cell(old(self).cell.0 as int, old(self).cell.1 as int).generation
                < usize::MAX,
        ensures
            final(self).wf(),
            final(pond).wf(),
            final(statistics).wf(),
            final(self).cell == old(self).cell,
            final(pond).spec_cell(old(self).cell.0 as int, old(self).cell.1 as int).energy == 0
                || !final(self).running,
            spec_pond_energy(*final(pond)) <= spec_pond_energy(*old(pond)),
            final(statistics)@.clock == old(statistics)@.clock,
            final(statistics)@.cell_executions == spec_sat_inc(old(statistics)@.cell_executions),
            forall|k: int|
                0 <= k < 16 ==> final(statistics)@.instruction_executions[k] >= old(
                    statistics,
                )@.instruction_executions[k],
            final(statistics)@.viable_cells_killed >= old(statistics)@.viable_cells_killed,
            final(statistics)@.viable_cell_shares >= old(statistics)@.viable_cell_shares,
            final(statistics)@.viable_cell_replaced >= old(statistics)@.viable_cell_replaced,
            forall|i: int, j: int|
                0 <= i < POND_WIDTH && 0 <= j < POND_HEIGHT && !spec_reachable(
                    old(self).cell,
                    i,
                    j,
                ) ==> final(pond).spec_cell(i, j) == old(pond).spec_cell(i, j),
            forall|i: int, j: int|
                0 <= i < POND_WIDTH && 0 <= j < POND_HEIGHT && (#[trigger] old(pond).spec_cell(
                    i,
                    j,
                )).founds_own_line() ==> (#[trigger] final(pond).spec_cell(
                    i,
                    j,
                )).founds_own_line(),
            spec_state_of(
                *final(self),
                *final(pond),
                *final(id_generator),
                *final(random_generator),
                *final(statistics),
            ) == spec_execute(
                spec_state_of(
                    *old(self),
                    *old(pond),
                    *old(id_generator),
                    *old(random_generator),
                    *old(statistics),
                ),
            ),
    {
        statistics.cell_executions = saturating_inc(statistics.cell_executions);
        let ghost initial = spec_state_of(
            *old(self),
            *old(pond),
            *old(id_generator),
            *old(random_generator),
            *old(statistics),
        );
        let ghost entry = spec_state_of(
            *self,
            *pond,
            *id_generator,
            *random_generator,
            *statistics,
        );
        while pond.cell(&self.cell).energy > 0 && self.running
            invariant
                self.wf(),
                pond.wf(),
                statistics.wf(),
                self.cell == old(self).cell,
                pond.spec_cell(self.cell.0 as int, self.cell.1 as int).generation < usize::MAX,
                spec_pond_energy(*pond) <= spec_pond_energy(*old(pond)),
                statistics@.clock == old(statistics)@.clock,
                statistics@.cell_executions == spec_sat_inc(old(statistics)@.cell_executions),
                forall|k: int|
                    0 <= k < 16 ==> statistics@.instruction_executions[k] >= old(
                        statistics,
                    )@.instruction_executions[k],
                statistics@.viable_cells_killed >= old(statistics)@.viable_cells_killed,
                statistics@.viable_cell_shares >= old(statistics)@.viable_cell_shares,
                statistics@.viable_cell_replaced >= old(statistics)@.viable_cell_replaced,
                forall|i: int, j: int|
                    0 <= i < POND_WIDTH && 0 <= j < POND_HEIGHT && !spec_reachable(
                        old(self).cell,
                        i,
                        j,
                    ) ==> pond.spec_cell(i, j) == old(pond).spec_cell(i, j),
                forall|i: int, j: int|
                    0 <= i < POND_WIDTH && 0 <= j < POND_HEIGHT && (#[trigger] old(pond).spec_cell(
                        i,
                        j,
                    )).founds_own_line() ==> (#[trigger] pond.spec_cell(i, j)).founds_own_line(),
                spec_run_loop(
                    spec_state_of(*self, *pond, *id_generator, *random_generator, *statistics),
                ) == spec_run_loop(entry),
            decreases spec_pond_energy(*pond),
        {
            let ghost cur0 = spec_state_of(
                *self,
                *pond,
                *id_generator,
                *random_generator,
                *statistics,
            );
            let ghost pre = *pond;
            proof {
                lemma_state_wf_of(*self, *pond, *id_generator, *random_generator, *statistics);
                lemma_grid_view_cells(*pond);
                assert(spec_bound_cell(cur0).energy > 0);
                assert(spec_run_loop(cur0) == spec_run_loop(spec_tick(cur0)));
            }
            self.maybe_mutate(pond, random_generator);
            let ghost p1 = *pond;
            let ghost s1 = TickState {
                vm: self@,
                grid: spec_grid_view(p1),
                rng: *random_generator,
                ..cur0
            };
            proof {
                assert(spec_mutate(cur0.vm, cur0.grid, cur0.rng) == (
                    self@,
                    spec_grid_view(p1),
                    *random_generator,
                ));
                lemma_grid_view_cells(p1);
                assert(pond.spec_cell(self.cell.0 as int, self.cell.1 as int).energy
                    == pre.spec_cell(self.cell.0 as int, self.cell.1 as int).energy);
            }
            let energy = pond.cell(&self.cell).energy;
            pond.set_energy(&self.cell, energy - 1);
            let ghost p2 = *pond;
            let ghost s2 = TickState { grid: spec_grid_view(p2), ..s1 };
            proof {
                lemma_founds_preserved(p1, p2, self.cell.0 as int, self.cell.1 as int);
                lemma_grid_view_update(p1, p2, self.cell.0 as int, self.cell.1 as int);
                lemma_grid_view_cells(p2);
                assert(s2.grid == grid_with(
                    s1.grid,
                    cur0.vm.cell.0 as int,
                    cur0.vm.cell.1 as int,
                    (CellView {
                        energy: (s1.grid[cur0.vm.cell.0 as int][cur0.vm.cell.1 as int].energy
                            - 1) as usize,
                        ..s1.grid[cur0.vm.cell.0 as int][cur0.vm.cell.1 as int]
                    }),
                ));
            }
            let instruction_byte = pond.cell(&self.cell).genome.get(&self.input_pointer);
            self.input_pointer.next();
            let instruction = Instruction::from(instruction_byte);
            statistics.instruction_executions.increment(instruction);
            proof {
                assert(0 <= crate::instruction::spec_code(instruction) < 16);
            }
            let ghost s3 = spec_state_of(
                *self,
                *pond,
                *id_generator,
                *random_generator,
                *statistics,
            );
            let ghost vm_before = *self;
            proof {
                assert(instruction == spec_instruction_of(
                    spec_get(
                        s2.grid[cur0.vm.cell.0 as int][cur0.vm.cell.1 as int].genome,
                        s2.vm.input_pointer,
                    ),
                ));
                assert(s3 == (TickState {
                    vm: (CellVMView { input_pointer: spec_advance(s2.vm.input_pointer), ..s2.vm }),
                    stats: (StatisticsView {
                        instruction_executions: s2.stats.instruction_executions.update(
                            spec_code(instruction),
                            spec_sat_inc(
                                s2.stats.instruction_executions[spec_code(instruction)],
                            ),
                        ),
                        ..s2.stats
                    }),
                    ..s2
                }));
            }
            if self.loop_stack_depth == 0 {
                self.execute_instruction(
                    pond,
                    id_generator,
                    random_generator,
                    statistics,
                    instruction,
                );
                proof {
                    assert(spec_state_of(
                        *self,
                        *pond,
                        *id_generator,
                        *random_generator,
                        *statistics,
                    ) == spec_dispatch(s3, instruction));
                }
            } else if instruction == Instruction::Loop {
                self.loop_stack_depth = saturating_inc(self.loop_stack_depth);
            } else if instruction == Instruction::Rep {
                self.loop_stack_depth = self.loop_stack_depth - 1;
            }
            proof {
                assert(spec_state_of(*self, *pond, *id_generator, *random_generator, *statistics)
                    == spec_tick(cur0));
                lemma_pond_energy_nonneg(*pond);
                assert forall|i: int, j: int|
                    0 <= i < POND_WIDTH && 0 <= j < POND_HEIGHT && !spec_reachable(
                        old(self).cell,
                        i,
                        j,
                    ) implies pond.spec_cell(i, j) == old(pond).spec_cell(i, j) by {
                    lemma_touched_within_reach(vm_before, i, j);
                    assert(p2.spec_cell(i, j) == pre.spec_cell(i, j));
                }
                assert forall|i: int, j: int|
                    0 <= i < POND_WIDTH && 0 <= j < POND_HEIGHT && (#[trigger] old(pond).spec_cell(
                        i,
                        j,
                    )).founds_own_line() implies (#[trigger] pond.spec_cell(
                    i,
                    j,
                )).founds_own_line() by {
                    assert(p1.spec_cell(i, j).founds_own_line());
                    assert(p2.spec_cell(i, j).founds_own_line());
                }
            }
        }
        let ghost loop_exit = spec_state_of(
            *self,
            *pond,
            *id_generator,
            *random_generator,
            *statistics,
        );
        proof {
            lemma_state_wf_of(*self, *pond, *id_generator, *random_generator, *statistics);
            lemma_grid_view_cells(*pond);
            assert(!(spec_bound_cell(loop_exit).energy > 0 && loop_exit.vm.running));
            assert(spec_run_loop(loop_exit) == loop_exit);
            assert(loop_exit == spec_run_loop(entry));
        }
        let ghost before_repro = *pond;
        let ghost vm_end = *self;
        self.maybe_reproduce(pond, id_generator, random_generator, statistics);
        proof {
            assert(spec_state_of(*self, *pond, *id_generator, *random_generator, *statistics)
                == spec_reproduce(loop_exit));
            assert(entry == (TickState {
                stats: (StatisticsView {
                    cell_executions: spec_sat_inc(initial.stats.cell_executions),
                    ..initial.stats
                }),
                ..initial
            }));
            assert(spec_state_of(*self, *pond, *id_generator, *random_generator, *statistics)
                == spec_execute(initial));
            assert forall|i: int, j: int|
                0 <= i < POND_WIDTH && 0 <= j < POND_HEIGHT && !spec_reachable(
                    old(self).cell,
                    i,
                    j,
                ) implies pond.spec_cell(i, j) == old(pond).spec_cell(i, j) by {
                lemma_touched_within_reach(vm_end, i, j);
            }
            assert forall|i: int, j: int|
                0 <= i < POND_WIDTH && 0 <= j < POND_HEIGHT && (#[trigger] old(pond).spec_cell(
                    i,
                    j,
                )).founds_own_line() implies (#[trigger] pond.spec_cell(i, j)).founds_own_line() by {
                assert(before_repro.spec_cell(i, j).founds_own_line());
            }
        }
    }

    /// When the execution has ended, tries to copy the output genome over
    /// the faced neighbor: only a live neighbor, a started output — its
    /// first byte not all ones — and a passed negative access check let the
    /// offspring in. The offspring takes a fresh id, this cell as parent,
    /// its lineage, and one more generation; the neighbor's energy stays.
    pub fn maybe_reproduce(
        &self,
        pond: &mut CellPond,
        id_generator: &mut CellIdGenerator,
        random_generator: &mut RandomGenerator,
        statistics: &mut Statistics,
    )
        requires
            self.wf(),
            old(pond).wf(),
            old(statistics).wf(),
            old(pond).spec_cell(self.cell.0 as int, self.cell.1 as int).generation < usize::MAX,
        ensures
            final(pond).wf(),
            final(statistics).wf(),
            spec_pond_energy(*final(pond)) == spec_pond_energy(*old(pond)),
            final(statistics)@.clock == old(statistics)@.clock,
            final(statistics)@.cell_executions == old(statistics)@.cell_executions,
            final(statistics)@.instruction_executions == old(statistics)@.instruction_executions,
            final(statistics)@.viable_cells_killed == old(statistics)@.viable_cells_killed,
            final(statistics)@.viable_cell_shares == old(statistics)@.viable_cell_shares,
            final(statistics)@.viable_cell_replaced >= old(statistics)@.viable_cell_replaced,
            forall|i: int, j: int|
                0 <= i < POND_WIDTH && 0 <= j < POND_HEIGHT && !spec_touched(*self, i, j) ==> final(pond).spec_cell(i, j) == old(pond).spec_cell(i, j),
            forall|i: int, j: int|
                0 <= i < POND_WIDTH && 0 <= j < POND_HEIGHT && (#[trigger] old(pond).spec_cell(
                    i,
                    j,
                )).founds_own_line() ==> (#[trigger] final(pond).spec_cell(
                    i,
                    j,
                )).founds_own_line(),
            spec_state_of(
                *self,
                *final(pond),
                *final(id_generator),
                *final(random_generator),
                *final(statistics),
            ) == spec_reproduce(
                spec_state_of(
                    *self,
                    *old(pond),
                    *old(id_generator),
                    *old(random_generator),
                    *old(statistics),
                ),
            ),
            ({
                let cx = self.cell.0 as int;
                let cy = self.cell.1 as int;
                let np = spec_neighbor_position(self.cell, self.facing);
                let nx = np.0 as int;
                let ny = np.1 as int;
                let nview = old(pond).spec_cell(nx, ny);
                if nview.energy > 0 && self@.output[0] != 0xff {
                    let threshold = spec_output(*old(random_generator)) as u8;
                    *final(random_generator) == spec_step(*old(random_generator)) && if
                    spec_can_be_accessed(
                        nview,
                        self.register,
                        InteractionType::Negative,
                        threshold,
                    ) {
                        final(id_generator).current == spec_next_id(old(id_generator).current)
                            && final(statistics)@ == (if nview.energy > 0 && nview.generation > 2 {
                            StatisticsView {
                                viable_cell_replaced: spec_sat_inc(
                                    old(statistics)@.viable_cell_replaced,
                                ),
                                ..old(statistics)@
                            }
                        } else {
                            old(statistics)@
                        }) && CellPond::same_except(*old(pond), *final(pond), nx, ny) && final(pond).spec_cell(nx, ny) == (CellView {
                            id: spec_next_id(old(id_generator).current),
                            parent_id: Some(old(pond).spec_cell(cx, cy).id),
                            lineage: old(pond).spec_cell(cx, cy).lineage,
                            generation: (old(pond).spec_cell(cx, cy).generation + 1) as usize,
                            energy: nview.energy,
                            genome: self@.output,
                        })
                    } else {
                        *final(id_generator) == *old(id_generator) && *final(statistics) == *old(statistics) && *final(pond) == *old(pond)
                    }
                } else {
                    *final(random_generator) == *old(random_generator) && *final(id_generator)
                        == *old(id_generator) && *final(statistics) == *old(statistics) && *final(pond) == *old(pond)
                }
            }),
    {
        let np = neighbor_position(&self.cell, &self.facing);
        let neighbor_energy = pond.cell(&np).energy;
        if neighbor_energy > 0 && self.output.0[0] != 0xff && self.can_access_neighbor(
            pond,
            random_generator,
            InteractionType::Negative,
        ) {
            let parent = pond.cell(&self.cell).id;
            let lineage = pond.cell(&self.cell).lineage;
            let generation = pond.cell(&self.cell).generation + 1;
            if pond.cell(&np).generation > 2 {
                statistics.viable_cell_replaced = saturating_inc(statistics.viable_cell_replaced);
            }
            let new_id = id_generator.next();
            let genome = self.output.clone();
            pond.birth(&np, new_id, parent, lineage, generation, genome);
            proof {
                lemma_founds_preserved(*old(pond), *pond, np.0 as int, np.1 as int);
                lemma_grid_view_cells(*old(pond));
                lemma_grid_view_update(*old(pond), *pond, np.0 as int, np.1 as int);
            }
        }
    }
}

} // verus!
