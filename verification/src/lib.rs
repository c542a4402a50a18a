//! An artificial-life pond: a toroidal grid of cells, each carrying a
//! byte-packed genome that a small 16-instruction virtual machine executes.
//! Cells spend energy to run their genomes, mutate, attack and feed their
//! neighbors, and copy an output genome into the cell they face.

pub mod cell;
pub mod cell_pond;
pub mod cell_vm;
pub mod genome;
pub mod instruction;
pub mod random_generator;
pub mod statistics;

use vstd::prelude::*;

pub use cell::CellIdGenerator;
pub use cell_pond::CellPond;
pub use cell_vm::CellVM;
pub use genome::Genome;
pub use random_generator::RandomGenerator;
pub use statistics::Statistics;

verus! {

/// Grid columns.
pub const POND_WIDTH: usize = 800;

/// Grid rows.
pub const POND_HEIGHT: usize = 600;

/// Nibbles per genome.
pub const POND_DEPTH: usize = 1024;

/// Bytes per genome: two nibbles to a byte.
pub const GENOME_SIZE: usize = POND_DEPTH / 2;

/// Energy granted to a freshly spawned or inflow-replaced cell.
pub const INFLOW_RATE_BASE: usize = 1000;

/// Ticks between inflow events.
pub const INFLOW_FREQUENCY: usize = 100;

/// Ticks between statistics reports.
pub const REPORT_FREQUENCY: usize = 20000;

/// A raw generator word below this threshold triggers a mutation.
pub const MUTATION_RATE: usize = 5000;

/// A failed kill costs the attacker this fraction of its energy,
/// expressed as the rational numerator/denominator (one third).
pub const FAILED_KILL_PENALTY_NUMERATOR: usize = 1;

/// Denominator of the failed-kill penalty fraction.
pub const FAILED_KILL_PENALTY_DENOMINATOR: usize = 3;

} // verus!
