use rustedpond::instruction::Instruction;
use rustedpond::statistics::InstructionCounter;
use rustedpond::statistics::Statistics;

#[test]
fn counters_start_at_zero() {
    let s = Statistics::new();
    assert_eq!(s.cell_executions, 0);
    assert_eq!(s.clock, 0);
    assert_eq!(s.viable_cells_killed, 0);
    assert_eq!(s.viable_cell_shares, 0);
    assert_eq!(s.viable_cell_replaced, 0);
    for i in Instruction::iterator() {
        assert_eq!(s.instruction_executions.count(i), 0);
    }
}

#[test]
fn increment_bumps_one_bin() {
    let mut c = InstructionCounter::new();
    c.increment(Instruction::Inc);
    c.increment(Instruction::Inc);
    c.increment(Instruction::Stop);
    assert_eq!(c.count(Instruction::Inc), 2);
    assert_eq!(c.count(Instruction::Stop), 1);
    assert_eq!(c.count(Instruction::Zero), 0);
}

#[test]
fn zero_keeps_the_clock() {
    let mut s = Statistics::new();
    s.clock = 41;
    s.cell_executions = 9;
    s.viable_cells_killed = 2;
    s.viable_cell_shares = 3;
    s.viable_cell_replaced = 4;
    s.instruction_executions.increment(Instruction::Kill);
    s.zero();
    assert_eq!(s.clock, 41);
    assert_eq!(s.cell_executions, 0);
    assert_eq!(s.viable_cells_killed, 0);
    assert_eq!(s.viable_cell_shares, 0);
    assert_eq!(s.viable_cell_replaced, 0);
    assert_eq!(s.instruction_executions.count(Instruction::Kill), 0);
}

#[test]
fn metabolism_divides_by_cell_executions() {
    let mut s = Statistics::new();
    assert_eq!(s.metabolism(), 0);
    for _ in 0..7 {
        s.instruction_executions.increment(Instruction::Fwd);
    }
    for _ in 0..3 {
        s.instruction_executions.increment(Instruction::Share);
    }
    s.cell_executions = 2;
    assert_eq!(s.metabolism(), 5);
    s.cell_executions = 3;
    assert_eq!(s.metabolism(), 3);
}
