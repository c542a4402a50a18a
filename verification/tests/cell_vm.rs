use rustedpond::cell::CellId;
use rustedpond::cell::CellIdGenerator;
use rustedpond::cell::CellPosition;
use rustedpond::cell_pond::CellPond;
use rustedpond::cell_vm::CellVM;
use rustedpond::cell_vm::Facing;
use rustedpond::genome::GenomePointer;
use rustedpond::instruction::Instruction;
use rustedpond::random_generator::RandomGenerator;
use rustedpond::statistics::Statistics;

fn setup() -> (CellIdGenerator, CellPond, RandomGenerator, Statistics) {
    let mut ids = CellIdGenerator::new();
    let pond = CellPond::inert(&mut ids);
    (ids, pond, RandomGenerator::new(1, 2), Statistics::new())
}

#[test]
fn new_vm_initial_state() {
    let vm = CellVM::new(CellPosition(5, 5));
    assert_eq!((vm.output_pointer.array_pointer, vm.output_pointer.is_lower_byte), (0, true));
    assert_eq!((vm.input_pointer.array_pointer, vm.input_pointer.is_lower_byte), (0, true));
    assert_eq!(vm.register, 0);
    assert_eq!(vm.facing, Facing::Left);
    assert!(vm.running);
    assert!(vm.loop_stack.is_empty());
    assert_eq!(vm.loop_stack_depth, 0);
    assert_eq!(vm.output.0[0], 0xff);
}

#[test]
fn zero_resets_cursor_facing_register() {
    let (mut ids, mut pond, mut rng, mut stats) = setup();
    let mut vm = CellVM::new(CellPosition(5, 5));
    vm.facing = Facing::Up;
    vm.register = 9;
    vm.output_pointer = GenomePointer::new(40, false);
    vm.execute_instruction(&mut pond, &mut ids, &mut rng, &mut stats, Instruction::Zero);
    assert_eq!((vm.output_pointer.array_pointer, vm.output_pointer.is_lower_byte), (0, true));
    assert_eq!(vm.facing, Facing::Left);
    assert_eq!(vm.register, 0);
}

#[test]
fn inc_and_dec_wrap_as_nibbles() {
    let (mut ids, mut pond, mut rng, mut stats) = setup();
    let mut vm = CellVM::new(CellPosition(5, 5));
    vm.execute_instruction(&mut pond, &mut ids, &mut rng, &mut stats, Instruction::Inc);
    assert_eq!(vm.register, 1);
    vm.register = 15;
    vm.execute_instruction(&mut pond, &mut ids, &mut rng, &mut stats, Instruction::Inc);
    assert_eq!(vm.register, 0);
    vm.execute_instruction(&mut pond, &mut ids, &mut rng, &mut stats, Instruction::Dec);
    assert_eq!(vm.register, 15);
    vm.execute_instruction(&mut pond, &mut ids, &mut rng, &mut stats, Instruction::Dec);
    assert_eq!(vm.register, 14);
}

#[test]
fn fwd_and_back_move_the_output_cursor() {
    let (mut ids, mut pond, mut rng, mut stats) = setup();
    let mut vm = CellVM::new(CellPosition(5, 5));
    vm.execute_instruction(&mut pond, &mut ids, &mut rng, &mut stats, Instruction::Fwd);
    assert_eq!((vm.output_pointer.array_pointer, vm.output_pointer.is_lower_byte), (0, false));
    vm.execute_instruction(&mut pond, &mut ids, &mut rng, &mut stats, Instruction::Back);
    assert_eq!((vm.output_pointer.array_pointer, vm.output_pointer.is_lower_byte), (0, true));
    vm.execute_instruction(&mut pond, &mut ids, &mut rng, &mut stats, Instruction::Back);
    assert_eq!((vm.output_pointer.array_pointer, vm.output_pointer.is_lower_byte), (511, false));
}

#[test]
fn turn_follows_the_register() {
    let (mut ids, mut pond, mut rng, mut stats) = setup();
    let mut vm = CellVM::new(CellPosition(5, 5));
    vm.register = 2;
    vm.execute_instruction(&mut pond, &mut ids, &mut rng, &mut stats, Instruction::Turn);
    assert_eq!(vm.facing, Facing::Up);
    vm.register = 7;
    vm.execute_instruction(&mut pond, &mut ids, &mut rng, &mut stats, Instruction::Turn);
    assert_eq!(vm.facing, Facing::Down);
}

#[test]
fn genome_reads_and_writes_go_through_the_input_cursor() {
    let (mut ids, mut pond, mut rng, mut stats) = setup();
    let mut vm = CellVM::new(CellPosition(5, 5));
    vm.register = 0x4;
    vm.execute_instruction(&mut pond, &mut ids, &mut rng, &mut stats, Instruction::WriteGenome);
    assert_eq!(pond.cell(&CellPosition(5, 5)).genome.0[0], 0xf4);
    vm.register = 0;
    vm.execute_instruction(&mut pond, &mut ids, &mut rng, &mut stats, Instruction::ReadGenome);
    assert_eq!(vm.register, 0x4);
}

#[test]
fn buffer_writes_and_reads_go_through_the_output_cursor() {
    let (mut ids, mut pond, mut rng, mut stats) = setup();
    let mut vm = CellVM::new(CellPosition(5, 5));
    vm.register = 0x9;
    vm.execute_instruction(&mut pond, &mut ids, &mut rng, &mut stats, Instruction::WriteBuffer);
    assert_eq!(vm.output.0[0], 0xf9);
    vm.register = 0;
    vm.execute_instruction(&mut pond, &mut ids, &mut rng, &mut stats, Instruction::ReadBuffer);
    assert_eq!(vm.register, 0x9);
}

#[test]
fn xchg_swaps_register_and_genome_then_advances() {
    let (mut ids, mut pond, mut rng, mut stats) = setup();
    let mut vm = CellVM::new(CellPosition(5, 5));
    vm.register = 0x2;
    vm.execute_instruction(&mut pond, &mut ids, &mut rng, &mut stats, Instruction::Xchg);
    assert_eq!(vm.register, 0xf);
    assert_eq!(pond.cell(&CellPosition(5, 5)).genome.0[0], 0xf2);
    assert_eq!((vm.input_pointer.array_pointer, vm.input_pointer.is_lower_byte), (0, false));
}

#[test]
fn loop_pushes_the_cursor_when_the_register_is_set() {
    let (mut ids, mut pond, mut rng, mut stats) = setup();
    let mut vm = CellVM::new(CellPosition(5, 5));
    vm.register = 1;
    vm.input_pointer = GenomePointer::new(8, false);
    vm.execute_instruction(&mut pond, &mut ids, &mut rng, &mut stats, Instruction::Loop);
    assert_eq!(vm.loop_stack.len(), 1);
    assert_eq!(vm.loop_stack[0].array_pointer, 8);
    assert_eq!(vm.loop_stack_depth, 0);
}

#[test]
fn loop_on_zero_register_opens_a_skip() {
    let (mut ids, mut pond, mut rng, mut stats) = setup();
    let mut vm = CellVM::new(CellPosition(5, 5));
    vm.execute_instruction(&mut pond, &mut ids, &mut rng, &mut stats, Instruction::Loop);
    assert!(vm.loop_stack.is_empty());
    assert_eq!(vm.loop_stack_depth, 1);
}

#[test]
fn rep_jumps_back_when_the_register_is_set() {
    let (mut ids, mut pond, mut rng, mut stats) = setup();
    let mut vm = CellVM::new(CellPosition(5, 5));
    vm.loop_stack.push(GenomePointer::new(7, true));
    vm.register = 1;
    vm.input_pointer = GenomePointer::new(100, false);
    vm.execute_instruction(&mut pond, &mut ids, &mut rng, &mut stats, Instruction::Rep);
    assert!(vm.loop_stack.is_empty());
    assert_eq!((vm.input_pointer.array_pointer, vm.input_pointer.is_lower_byte), (7, true));
}

#[test]
fn rep_discards_the_cursor_when_the_register_is_zero() {
    let (mut ids, mut pond, mut rng, mut stats) = setup();
    let mut vm = CellVM::new(CellPosition(5, 5));
    vm.loop_stack.push(GenomePointer::new(7, true));
    vm.input_pointer = GenomePointer::new(100, false);
    vm.execute_instruction(&mut pond, &mut ids, &mut rng, &mut stats, Instruction::Rep);
    assert!(vm.loop_stack.is_empty());
    assert_eq!((vm.input_pointer.array_pointer, vm.input_pointer.is_lower_byte), (100, false));
}

#[test]
fn rep_on_an_empty_stack_does_nothing() {
    let (mut ids, mut pond, mut rng, mut stats) = setup();
    let mut vm = CellVM::new(CellPosition(5, 5));
    vm.register = 1;
    vm.input_pointer = GenomePointer::new(100, false);
    vm.execute_instruction(&mut pond, &mut ids, &mut rng, &mut stats, Instruction::Rep);
    assert_eq!((vm.input_pointer.array_pointer, vm.input_pointer.is_lower_byte), (100, false));
}

#[test]
fn stop_halts_the_machine() {
    let (mut ids, mut pond, mut rng, mut stats) = setup();
    let mut vm = CellVM::new(CellPosition(5, 5));
    vm.execute_instruction(&mut pond, &mut ids, &mut rng, &mut stats, Instruction::Stop);
    assert!(!vm.running);
}

#[test]
fn share_splits_energy_between_the_cells() {
    let (mut ids, mut pond, mut rng, mut stats) = setup();
    // From column zero the left neighbor wraps to the last column.
    let a = CellPosition(0, 1);
    let b = CellPosition(799, 1);
    pond.set_energy(&a, 100);
    pond.set_energy(&b, 50);
    let mut vm = CellVM::new(a);
    vm.execute_instruction(&mut pond, &mut ids, &mut rng, &mut stats, Instruction::Share);
    assert_eq!(pond.cell(&a).energy, 75);
    assert_eq!(pond.cell(&b).energy, 75);
    assert_eq!(stats.viable_cell_shares, 0);
}

#[test]
fn share_rounds_in_the_donors_favor_and_counts_viables() {
    let (mut ids, mut pond, mut rng, mut stats) = setup();
    let a = CellPosition(0, 1);
    let b = CellPosition(799, 1);
    pond.set_energy(&a, 100);
    pond.set_energy(&b, 51);
    pond.grid[799][1].generation = 3;
    let mut vm = CellVM::new(a);
    vm.execute_instruction(&mut pond, &mut ids, &mut rng, &mut stats, Instruction::Share);
    assert_eq!(pond.cell(&b).energy, 75);
    assert_eq!(pond.cell(&a).energy, 76);
    assert_eq!(stats.viable_cell_shares, 1);
}

#[test]
fn failed_kill_costs_a_third_of_the_energy() {
    let (mut ids, mut pond, mut rng, mut stats) = setup();
    let a = CellPosition(0, 1);
    let b = CellPosition(799, 1);
    pond.set_energy(&a, 300);
    // A defended neighbor: its first nibble is 0xf, the attacker guesses 0,
    // so the distance is 4; the threshold nibble from seeds (1, 2) is 5,
    // which exceeds it, and the negative check fails.
    pond.grid[799][1].parent_id = Some(CellId(9));
    let mut vm = CellVM::new(a);
    vm.execute_instruction(&mut pond, &mut ids, &mut rng, &mut stats, Instruction::Kill);
    assert_eq!(pond.cell(&a).energy, 200);
    assert_eq!(pond.cell(&b).energy, 1000);
    assert_eq!(stats.viable_cells_killed, 0);
}

#[test]
fn kill_wipes_the_neighbor_and_counts_viables() {
    let mut ids = CellIdGenerator::new();
    let mut pond = CellPond::inert(&mut ids);
    // All-zero seeds draw a zero threshold, which passes every negative
    // check.
    let mut rng = RandomGenerator::new(0, 0);
    let mut stats = Statistics::new();
    let a = CellPosition(0, 1);
    let b = CellPosition(799, 1);
    pond.grid[799][1].parent_id = Some(CellId(9));
    pond.grid[799][1].generation = 3;
    pond.set_energy(&b, 77);
    let mut vm = CellVM::new(a);
    vm.execute_instruction(&mut pond, &mut ids, &mut rng, &mut stats, Instruction::Kill);
    let victim = pond.cell(&b);
    assert_eq!(victim.id.0, 480_001);
    assert!(victim.parent_id.is_none());
    assert_eq!(victim.lineage.0, 480_001);
    assert_eq!(victim.generation, 0);
    assert_eq!(victim.energy, 77);
    assert_eq!(victim.genome.0[0], 0xff);
    assert_eq!(victim.genome.0[1], 0xff);
    assert_eq!(stats.viable_cells_killed, 1);
    assert_eq!(ids.current, 480_001);
}

#[test]
fn inert_cell_executes_stop_once() {
    let (mut ids, mut pond, mut rng, mut stats) = setup();
    let position = CellPosition(5, 5);
    let mut vm = CellVM::new(position);
    vm.execute(&mut pond, &mut ids, &mut rng, &mut stats);
    assert_eq!(pond.cell(&position).energy, 999);
    assert!(!vm.running);
    assert_eq!(stats.cell_executions, 1);
    assert_eq!(stats.instruction_executions.count(Instruction::Stop), 1);
    assert_eq!(stats.instruction_executions.count(Instruction::Inc), 0);
}

#[test]
fn loop_rep_cycles_back_until_the_stack_empties() {
    let (mut ids, mut pond, mut rng, mut stats) = setup();
    let position = CellPosition(5, 5);
    // Nibbles in order: Inc, Loop, Inc, Rep, then Stop from the inert rest.
    // The first pass pushes the cursor after Loop; Rep pops it and jumps
    // back; the second Rep finds the stack empty, falls through, and the
    // machine stops.
    pond.grid[5][5].genome.0[0] = 0x93;
    pond.grid[5][5].genome.0[1] = 0xa3;
    pond.set_energy(&position, 10);
    let mut vm = CellVM::new(position);
    vm.execute(&mut pond, &mut ids, &mut rng, &mut stats);
    assert_eq!(pond.cell(&position).energy, 3);
    assert_eq!(vm.register, 3);
    assert!(!vm.running);
    assert_eq!(stats.instruction_executions.count(Instruction::Inc), 3);
    assert_eq!(stats.instruction_executions.count(Instruction::Loop), 1);
    assert_eq!(stats.instruction_executions.count(Instruction::Rep), 2);
    assert_eq!(stats.instruction_executions.count(Instruction::Stop), 1);
}

#[test]
fn skip_mode_discards_instructions_but_counts_them() {
    let (mut ids, mut pond, mut rng, mut stats) = setup();
    let position = CellPosition(5, 5);
    // Nibbles in order: Loop (register zero, so a skip opens), Kill
    // (discarded), Rep (closes the skip), Inc, then Stop.
    pond.grid[5][5].genome.0[0] = 0xd9;
    pond.grid[5][5].genome.0[1] = 0x3a;
    let mut vm = CellVM::new(position);
    vm.execute(&mut pond, &mut ids, &mut rng, &mut stats);
    assert_eq!(vm.register, 1);
    assert!(!vm.running);
    assert_eq!(pond.cell(&position).energy, 995);
    // The discarded Kill was still counted, but never ran: the cell kept
    // its id.
    assert_eq!(stats.instruction_executions.count(Instruction::Kill), 1);
    assert_eq!(pond.cell(&position).id.0, 5 * 600 + 5 + 1);
    assert_eq!(ids.current, 480_000);
}

#[test]
fn mutation_can_overwrite_the_register() {
    let mut ids = CellIdGenerator::new();
    let mut pond = CellPond::inert(&mut ids);
    // All-zero seeds draw 0, which is below the mutation threshold; the
    // nibble drawn is 0 and the coin lands on the register.
    let mut rng = RandomGenerator::new(0, 0);
    let mut vm = CellVM::new(CellPosition(5, 5));
    vm.register = 7;
    vm.maybe_mutate(&mut pond, &mut rng);
    assert_eq!(vm.register, 0);
    assert_eq!(pond.cell(&CellPosition(5, 5)).genome.0[0], 0xff);
}

#[test]
fn mutation_usually_stays_away() {
    let (_ids, mut pond, mut rng, _stats) = setup();
    let mut vm = CellVM::new(CellPosition(5, 5));
    vm.register = 7;
    vm.maybe_mutate(&mut pond, &mut rng);
    assert_eq!(vm.register, 7);
    assert_eq!(pond.cell(&CellPosition(5, 5)).genome.0[0], 0xff);
}

#[test]
fn reproduction_overwrites_the_neighbor() {
    let (mut ids, mut pond, mut rng, mut stats) = setup();
    let a = CellPosition(0, 1);
    let b = CellPosition(799, 1);
    pond.grid[0][1].lineage = CellId(77);
    pond.grid[0][1].generation = 4;
    pond.grid[799][1].generation = 5;
    pond.set_energy(&b, 60);
    let mut vm = CellVM::new(a);
    vm.output.set(&GenomePointer::new(0, true), 0x3);
    vm.maybe_reproduce(&mut pond, &mut ids, &mut rng, &mut stats);
    let child = pond.cell(&b);
    assert_eq!(child.id.0, 480_001);
    assert_eq!(child.parent_id, Some(pond.cell(&a).id));
    assert_eq!(child.lineage.0, 77);
    assert_eq!(child.generation, 5);
    assert_eq!(child.energy, 60);
    assert_eq!(child.genome.0[0], 0xf3);
    assert_eq!(child.genome.0[1], 0xff);
    assert_eq!(stats.viable_cell_replaced, 1);
}

#[test]
fn reproduction_needs_a_started_output() {
    let (mut ids, mut pond, mut rng, mut stats) = setup();
    let a = CellPosition(0, 1);
    let b = CellPosition(799, 1);
    pond.set_energy(&b, 60);
    let vm = CellVM::new(a);
    let rng_before = rng;
    vm.maybe_reproduce(&mut pond, &mut ids, &mut rng, &mut stats);
    assert_eq!(pond.cell(&b).energy, 60);
    assert!(pond.cell(&b).parent_id.is_none());
    assert_eq!(stats.viable_cell_replaced, 0);
    assert_eq!(rng, rng_before);
    assert_eq!(ids.current, 480_000);
}

#[test]
fn execution_can_reproduce_into_the_neighbor() {
    let (mut ids, mut pond, mut rng, mut stats) = setup();
    let a = CellPosition(0, 1);
    let b = CellPosition(799, 1);
    // Nibbles in order: Inc, Inc, Inc, WriteBuffer, then Stop from the
    // inert rest: the program writes 3 into the output's first nibble and
    // halts, and the output then overwrites the left neighbor.
    pond.grid[0][1].genome.0[0] = 0x33;
    pond.grid[0][1].genome.0[1] = 0x83;
    let mut vm = CellVM::new(a);
    vm.execute(&mut pond, &mut ids, &mut rng, &mut stats);
    assert!(!vm.running);
    assert_eq!(pond.cell(&a).energy, 995);
    assert_eq!(vm.output.0[0], 0xf3);
    let child = pond.cell(&b);
    assert_eq!(child.id.0, 480_001);
    assert_eq!(child.parent_id, Some(pond.cell(&a).id));
    assert_eq!(child.lineage, pond.cell(&a).lineage);
    assert_eq!(child.lineage.0, 2);
    assert_eq!(child.generation, 1);
    assert_eq!(child.energy, 1000);
    assert_eq!(child.genome.0[0], 0xf3);
    assert_eq!(child.genome.0[1], 0xff);
    assert_eq!(stats.viable_cell_replaced, 0);
}

#[test]
fn kill_does_not_count_an_exhausted_victim() {
    let mut ids = CellIdGenerator::new();
    let mut pond = CellPond::inert(&mut ids);
    let mut rng = RandomGenerator::new(0, 0);
    let mut stats = Statistics::new();
    let a = CellPosition(0, 1);
    let b = CellPosition(799, 1);
    // A victim beyond the second generation but without energy is not a
    // viable replicator, so the kill is not counted as one.
    pond.grid[799][1].generation = 3;
    pond.set_energy(&b, 0);
    let mut vm = CellVM::new(a);
    vm.execute_instruction(&mut pond, &mut ids, &mut rng, &mut stats, Instruction::Kill);
    assert_eq!(pond.cell(&b).generation, 0);
    assert!(pond.cell(&b).parent_id.is_none());
    assert_eq!(stats.viable_cells_killed, 0);
}

#[test]
fn share_does_not_count_an_exhausted_neighbor() {
    let (mut ids, mut pond, mut rng, mut stats) = setup();
    let a = CellPosition(0, 1);
    let b = CellPosition(799, 1);
    pond.set_energy(&a, 100);
    pond.set_energy(&b, 0);
    pond.grid[799][1].generation = 3;
    let mut vm = CellVM::new(a);
    vm.execute_instruction(&mut pond, &mut ids, &mut rng, &mut stats, Instruction::Share);
    assert_eq!(pond.cell(&a).energy, 50);
    assert_eq!(pond.cell(&b).energy, 50);
    assert_eq!(stats.viable_cell_shares, 0);
}
