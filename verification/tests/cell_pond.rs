use rustedpond::cell::CellId;
use rustedpond::cell::CellIdGenerator;
use rustedpond::cell::CellPosition;
use rustedpond::cell_pond::neighbor_position;
use rustedpond::cell_pond::CellPond;
use rustedpond::cell_vm::Facing;
use rustedpond::genome::Genome;
use rustedpond::genome::GenomePointer;

#[test]
fn neighbor_left_wraps_only_from_column_zero() {
    let p = neighbor_position(&CellPosition(0, 10), &Facing::Left);
    assert_eq!((p.0, p.1), (799, 10));
    // Away from column zero the left lookup stays on the same column — the
    // long-standing quirk of the grid.
    let p = neighbor_position(&CellPosition(5, 10), &Facing::Left);
    assert_eq!((p.0, p.1), (5, 10));
}

#[test]
fn neighbor_right_up_down_wrap() {
    let p = neighbor_position(&CellPosition(799, 10), &Facing::Right);
    assert_eq!((p.0, p.1), (0, 10));
    let p = neighbor_position(&CellPosition(3, 599), &Facing::Up);
    assert_eq!((p.0, p.1), (3, 0));
    let p = neighbor_position(&CellPosition(3, 0), &Facing::Down);
    assert_eq!((p.0, p.1), (3, 599));
    let p = neighbor_position(&CellPosition(3, 10), &Facing::Right);
    assert_eq!((p.0, p.1), (4, 10));
}

#[test]
fn inert_pond_aggregates() {
    let mut ids = CellIdGenerator::new();
    let pond = CellPond::inert(&mut ids);
    assert_eq!(ids.current, 480_000);
    let founder = pond.cell(&CellPosition(3, 4));
    assert_eq!(founder.id.0, 3 * 600 + 4 + 1);
    assert_eq!(founder.lineage, founder.id);
    assert!(founder.parent_id.is_none());
    assert_eq!(pond.total_energy(), 480_000_000);
    assert_eq!(pond.total_active_cells(), 480_000);
    assert_eq!(pond.total_viable_replicators(), 0);
    assert_eq!(pond.max_generation(), 0);
}

#[test]
fn aggregates_follow_the_cells() {
    let mut ids = CellIdGenerator::new();
    let mut pond = CellPond::inert(&mut ids);
    pond.set_energy(&CellPosition(4, 5), 0);
    pond.grid[10][20].generation = 7;
    pond.grid[30][40].generation = 3;
    // An exhausted cell with a high generation is not viable.
    pond.grid[4][5].generation = 9;
    assert_eq!(pond.total_energy(), 480_000_000 - 1000);
    assert_eq!(pond.total_active_cells(), 479_999);
    assert_eq!(pond.total_viable_replicators(), 2);
    assert_eq!(pond.max_generation(), 7);
}

#[test]
fn replace_founds_a_new_line() {
    let mut ids = CellIdGenerator::new();
    let mut pond = CellPond::inert(&mut ids);
    let position = CellPosition(12, 34);
    pond.set_energy(&position, 1);
    pond.grid[12][34].generation = 6;
    let mut genome = Genome::new();
    genome.set(&GenomePointer::new(0, true), 0x3);
    let new_id = ids.next();
    pond.replace(&position, new_id, genome);
    let c = pond.cell(&position);
    assert_eq!(c.id, new_id);
    assert!(c.parent_id.is_none());
    assert_eq!(c.lineage, new_id);
    assert_eq!(c.generation, 0);
    assert_eq!(c.energy, 1000);
    assert_eq!(c.genome.0[0], 0xf3);
}

#[test]
fn wipe_keeps_energy_and_founds_a_new_line() {
    let mut ids = CellIdGenerator::new();
    let mut pond = CellPond::inert(&mut ids);
    let position = CellPosition(1, 2);
    pond.set_energy(&position, 321);
    pond.grid[1][2].generation = 5;
    pond.grid[1][2].parent_id = Some(CellId(9));
    let new_id = ids.next();
    pond.wipe(&position, new_id);
    let c = pond.cell(&position);
    assert_eq!(c.id, new_id);
    assert!(c.parent_id.is_none());
    assert_eq!(c.lineage, new_id);
    assert_eq!(c.generation, 0);
    assert_eq!(c.energy, 321);
    assert_eq!(c.genome.0[0], 0xff);
    assert_eq!(c.genome.0[1], 0xff);
}
