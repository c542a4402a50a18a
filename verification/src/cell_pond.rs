//! The pond: a toroidal grid of cells, with neighbor lookup by facing,
//! in-place cell updates, and aggregate queries over the active population.

use vstd::prelude::*;

use crate::cell::Cell;
use crate::cell::CellId;
use crate::cell::CellIdGenerator;
use crate::cell::CellPosition;
use crate::cell::CellView;
use crate::cell_vm::Facing;
use crate::genome::spec_random_genome;
use crate::genome::spec_set;
use crate::genome::Genome;
use crate::genome::GenomePointer;
use crate::random_generator::lemma_step_n_add;
use crate::random_generator::spec_step_n;
use crate::random_generator::RandomGenerator;
use crate::GENOME_SIZE;
use crate::INFLOW_RATE_BASE;
use crate::POND_HEIGHT;
use crate::POND_WIDTH;

verus! {

/// The toroidal grid: `POND_WIDTH` columns of `POND_HEIGHT` cells.
pub struct CellPond {
    pub grid: Vec<Vec<Cell>>,
}

/// The position of the cell adjacent in the given direction. The `Left`
/// lookup wraps only from column zero and otherwise stays on the same
/// column — the asymmetry the simulation has always had.
pub open spec fn spec_neighbor_position(p: CellPosition, f: Facing) -> CellPosition {
    match f {
        Facing::Left => CellPosition(
            if p.0 == 0 {
                (POND_WIDTH - 1) as usize
            } else {
                p.0
            },
            p.1,
        ),
        Facing::Right => CellPosition((((p.0 + 1) as int) % (POND_WIDTH as int)) as usize, p.1),
        Facing::Up => CellPosition(p.0, (((p.1 + 1) as int) % (POND_HEIGHT as int)) as usize),
        Facing::Down => CellPosition(
            p.0,
            if p.1 == 0 {
                (POND_HEIGHT - 1) as usize
            } else {
                (p.1 - 1) as usize
            },
        ),
    }
}

/// Computes the neighbor position with toroidal wrap.
pub fn neighbor_position(position: &CellPosition, facing: &Facing) -> (p: CellPosition)
    requires
        position.wf(),
    ensures
        p == spec_neighbor_position(*position, *facing),
        p.wf(),
{
    match facing {
        Facing::Left => {
            let x = if position.0 == 0 {
                POND_WIDTH - 1
            } else {
                position.0
            };
            CellPosition(x, position.1)
        },
        Facing::Right => CellPosition((position.0 + 1) % POND_WIDTH, position.1),
        Facing::Up => CellPosition(position.0, (position.1 + 1) % POND_HEIGHT),
        Facing::Down => {
            let y = if position.1 == 0 {
                POND_HEIGHT - 1
            } else {
                position.1 - 1
            };
            CellPosition(position.0, y)
        },
    }
}

/// The sum of the energies of the first `k` cells of a row.
pub open spec fn spec_row_energy(row: Seq<Cell>, k: int) -> int
    decreases k,
{
    if k <= 0 {
        0
    } else {
        spec_row_energy(row, k - 1) + row[k - 1].energy
    }
}

/// The sum of the energies of the first `k` whole columns.
pub open spec fn spec_grid_energy(grid: Seq<Vec<Cell>>, k: int) -> int
    decreases k,
{
    if k <= 0 {
        0
    } else {
        spec_grid_energy(grid, k - 1) + spec_row_energy(grid[k - 1]@, grid[k - 1]@.len() as int)
    }
}

/// The total energy held by the pond.
pub open spec fn spec_pond_energy(p: CellPond) -> int {
    spec_grid_energy(p.grid@, p.grid@.len() as int)
}

/// The number of active cells — those with energy — among the first `k` of a
/// row.
pub open spec fn spec_row_active(row: Seq<Cell>, k: int) -> int
    decreases k,
{
    if k <= 0 {
        0
    } else {
        spec_row_active(row, k - 1) + if row[k - 1].energy > 0 {
            1int
        } else {
            0int
        }
    }
}

/// The number of active cells in the first `k` whole columns.
pub open spec fn spec_grid_active(grid: Seq<Vec<Cell>>, k: int) -> int
    decreases k,
{
    if k <= 0 {
        0
    } else {
        spec_grid_active(grid, k - 1) + spec_row_active(grid[k - 1]@, grid[k - 1]@.len() as int)
    }
}

/// The number of viable replicators — active cells beyond the second
/// generation — among the first `k` of a row.
pub open spec fn spec_row_viable(row: Seq<Cell>, k: int) -> int
    decreases k,
{
    if k <= 0 {
        0
    } else {
        spec_row_viable(row, k - 1) + if row[k - 1].energy > 0 && row[k - 1].generation > 2 {
            1int
        } else {
            0int
        }
    }
}

/// The number of viable replicators in the first `k` whole columns.
pub open spec fn spec_grid_viable(grid: Seq<Vec<Cell>>, k: int) -> int
    decreases k,
{
    if k <= 0 {
        0
    } else {
        spec_grid_viable(grid, k - 1) + spec_row_viable(grid[k - 1]@, grid[k - 1]@.len() as int)
    }
}

/// The largest generation among the first `k` active cells of a row, or the
/// floor `acc`.
pub open spec fn spec_row_max_generation(row: Seq<Cell>, k: int, acc: int) -> int
    decreases k,
{
    if k <= 0 {
        acc
    } else {
        let prev = spec_row_max_generation(row, k - 1, acc);
        if row[k - 1].energy > 0 && row[k - 1].generation > prev {
            row[k - 1].generation as int
        } else {
            prev
        }
    }
}

/// The largest generation among active cells of the first `k` whole columns,
/// or the floor `acc`.
pub open spec fn spec_grid_max_generation(grid: Seq<Vec<Cell>>, k: int, acc: int) -> int
    decreases k,
{
    if k <= 0 {
        acc
    } else {
        spec_row_max_generation(
            grid[k - 1]@,
            grid[k - 1]@.len() as int,
            spec_grid_max_generation(grid, k - 1, acc),
        )
    }
}

proof fn lemma_row_energy_nonneg(row: Seq<Cell>, k: int)
    ensures
        0 <= spec_row_energy(row, k),
    decreases k,
{
    if k > 0 {
        lemma_row_energy_nonneg(row, k - 1);
    }
}

proof fn lemma_grid_energy_nonneg(grid: Seq<Vec<Cell>>, k: int)
    ensures
        0 <= spec_grid_energy(grid, k),
    decreases k,
{
    if k > 0 {
        lemma_grid_energy_nonneg(grid, k - 1);
        lemma_row_energy_nonneg(grid[k - 1]@, grid[k - 1]@.len() as int);
    }
}

/// The pond's total energy is never negative.
pub proof fn lemma_pond_energy_nonneg(p: CellPond)
    ensures
        0 <= spec_pond_energy(p),
{
    lemma_grid_energy_nonneg(p.grid@, p.grid@.len() as int);
}

proof fn lemma_row_energy_except(r1: Seq<Cell>, r2: Seq<Cell>, k: int, y: int)
    requires
        forall|j: int| 0 <= j < k && j != y ==> r2[j].energy == r1[j].energy,
    ensures
        spec_row_energy(r2, k) == spec_row_energy(r1, k) + if 0 <= y < k {
            r2[y].energy - r1[y].energy
        } else {
            0int
        },
    decreases k,
{
    if k > 0 {
        lemma_row_energy_except(r1, r2, k - 1, y);
    }
}

proof fn lemma_grid_energy_except(g1: Seq<Vec<Cell>>, g2: Seq<Vec<Cell>>, k: int, x: int, y: int)
    requires
        forall|i: int| 0 <= i < k && i != x ==> g2[i]@ == g1[i]@,
        0 <= x < k ==> g2[x]@.len() == g1[x]@.len() && 0 <= y < g1[x]@.len() && forall|j: int|
            0 <= j < g1[x]@.len() && j != y ==> g2[x]@[j].energy == g1[x]@[j].energy,
    ensures
        spec_grid_energy(g2, k) == spec_grid_energy(g1, k) + if 0 <= x < k {
            g2[x]@[y].energy - g1[x]@[y].energy
        } else {
            0int
        },
    decreases k,
{
    if k > 0 {
        lemma_grid_energy_except(g1, g2, k - 1, x, y);
        if x == k - 1 {
            lemma_row_energy_except(g1[k - 1]@, g2[k - 1]@, g1[k - 1]@.len() as int, y);
        }
    }
}

/// Changing one cell moves the pond's total energy by exactly that cell's
/// energy difference.
pub proof fn lemma_pond_energy_update(p1: CellPond, p2: CellPond, x: int, y: int)
    requires
        p1.dims_ok(),
        p2.dims_ok(),
        0 <= x < POND_WIDTH,
        0 <= y < POND_HEIGHT,
        forall|i: int| 0 <= i < POND_WIDTH && i != x ==> p2.grid@[i]@ == p1.grid@[i]@,
        forall|j: int|
            0 <= j < POND_HEIGHT && j != y ==> p2.grid@[x]@[j].energy == p1.grid@[x]@[j].energy,
    ensures
        spec_pond_energy(p2) == spec_pond_energy(p1) + p2.grid@[x]@[y].energy - p1.grid@[x]@[
            y
        ].energy,
{
    lemma_grid_energy_except(p1.grid@, p2.grid@, POND_WIDTH as int, x, y);
}

/// The ghost value of the whole grid, column by column.
pub open spec fn spec_grid_view(p: CellPond) -> Seq<Seq<CellView>> {
    p.grid@.map_values(|row: Vec<Cell>| row@.map_values(|c: Cell| c@))
}

/// A ghost grid with the cell at one position replaced.
pub open spec fn grid_with(g: Seq<Seq<CellView>>, x: int, y: int, c: CellView) -> Seq<
    Seq<CellView>,
> {
    g.update(x, g[x].update(y, c))
}

/// One cell of a ghost grid.
pub open spec fn grid_cell(g: Seq<Seq<CellView>>, p: CellPosition) -> CellView {
    g[p.0 as int][p.1 as int]
}

/// A ghost grid of full dimensions whose cells are all well-formed.
pub open spec fn grid_wf(g: Seq<Seq<CellView>>) -> bool {
    g.len() == POND_WIDTH && (forall|x: int|
        0 <= x < POND_WIDTH ==> (#[trigger] g[x]).len() == POND_HEIGHT) && (forall|x: int, y: int|
        0 <= x < POND_WIDTH && 0 <= y < POND_HEIGHT ==> (#[trigger] g[x][y]).wf())
}

/// A pond's ghost grid has the pond's dimensions and reads cell for cell as
/// the pond does; a well-formed pond gives a well-formed ghost grid.
pub proof fn lemma_grid_view_cells(p: CellPond)
    requires
        p.dims_ok(),
    ensures
        spec_grid_view(p).len() == POND_WIDTH,
        forall|x: int|
            0 <= x < POND_WIDTH ==> (#[trigger] spec_grid_view(p)[x]).len() == POND_HEIGHT,
        forall|x: int, y: int|
            0 <= x < POND_WIDTH && 0 <= y < POND_HEIGHT ==> #[trigger] spec_grid_view(p)[x][y]
                == p.spec_cell(x, y),
        p.wf() ==> grid_wf(spec_grid_view(p)),
{
    assert forall|x: int| 0 <= x < POND_WIDTH implies (#[trigger] spec_grid_view(p)[x]).len()
        == POND_HEIGHT by {
        assert(spec_grid_view(p)[x] == p.grid@[x]@.map_values(|c: Cell| c@));
    }
    assert forall|x: int, y: int|
        0 <= x < POND_WIDTH && 0 <= y < POND_HEIGHT implies #[trigger] spec_grid_view(p)[x][y]
        == p.spec_cell(x, y) by {
        assert(spec_grid_view(p)[x] == p.grid@[x]@.map_values(|c: Cell| c@));
    }
}

/// A pond change confined to one position moves its ghost grid by exactly
/// that one cell.
pub proof fn lemma_grid_view_update(p1: CellPond, p2: CellPond, x: int, y: int)
    requires
        p1.dims_ok(),
        p2.dims_ok(),
        0 <= x < POND_WIDTH,
        0 <= y < POND_HEIGHT,
        CellPond::same_except(p1, p2, x, y),
    ensures
        spec_grid_view(p2) == grid_with(spec_grid_view(p1), x, y, p2.spec_cell(x, y)),
{
    lemma_grid_view_cells(p1);
    lemma_grid_view_cells(p2);
    let a = spec_grid_view(p2);
    let b = grid_with(spec_grid_view(p1), x, y, p2.spec_cell(x, y));
    assert forall|i: int| 0 <= i < POND_WIDTH implies a[i] == b[i] by {
        assert forall|j: int| 0 <= j < POND_HEIGHT implies a[i][j] == b[i][j] by {
            if !(i == x && j == y) {
                assert(p2.spec_cell(i, j) == p1.spec_cell(i, j));
            }
        }
        assert(a[i] =~= b[i]);
    }
    assert(a =~= b);
}

/// The sum of the energies of the first `k` cells of a ghost row.
pub open spec fn spec_view_row_energy(row: Seq<CellView>, k: int) -> int
    decreases k,
{
    if k <= 0 {
        0
    } else {
        spec_view_row_energy(row, k - 1) + row[k - 1].energy
    }
}

/// The sum of the energies of the first `k` whole columns of a ghost grid.
pub open spec fn spec_view_cols_energy(g: Seq<Seq<CellView>>, k: int) -> int
    decreases k,
{
    if k <= 0 {
        0
    } else {
        spec_view_cols_energy(g, k - 1) + spec_view_row_energy(g[k - 1], g[k - 1].len() as int)
    }
}

/// The total energy a ghost grid holds.
pub open spec fn spec_view_energy(g: Seq<Seq<CellView>>) -> int {
    spec_view_cols_energy(g, g.len() as int)
}

proof fn lemma_view_row_energy_nonneg(row: Seq<CellView>, k: int)
    ensures
        0 <= spec_view_row_energy(row, k),
    decreases k,
{
    if k > 0 {
        lemma_view_row_energy_nonneg(row, k - 1);
    }
}

/// A ghost grid's total energy is never negative.
pub proof fn lemma_view_energy_nonneg(g: Seq<Seq<CellView>>)
    ensures
        0 <= spec_view_energy(g),
{
    lemma_view_cols_energy_nonneg(g, g.len() as int);
}

proof fn lemma_view_cols_energy_nonneg(g: Seq<Seq<CellView>>, k: int)
    ensures
        0 <= spec_view_cols_energy(g, k),
    decreases k,
{
    if k > 0 {
        lemma_view_cols_energy_nonneg(g, k - 1);
        lemma_view_row_energy_nonneg(g[k - 1], g[k - 1].len() as int);
    }
}

proof fn lemma_view_row_energy_except(r1: Seq<CellView>, r2: Seq<CellView>, k: int, y: int)
    requires
        forall|j: int| 0 <= j < k && j != y ==> r2[j].energy == r1[j].energy,
    ensures
        spec_view_row_energy(r2, k) == spec_view_row_energy(r1, k) + if 0 <= y < k {
            r2[y].energy - r1[y].energy
        } else {
            0int
        },
    decreases k,
{
    if k > 0 {
        lemma_view_row_energy_except(r1, r2, k - 1, y);
    }
}

proof fn lemma_view_cols_energy_except(
    g1: Seq<Seq<CellView>>,
    g2: Seq<Seq<CellView>>,
    k: int,
    x: int,
    y: int,
)
    requires
        forall|i: int| 0 <= i < k && i != x ==> g2[i] == g1[i],
        0 <= x < k ==> g2[x].len() == g1[x].len() && 0 <= y < g1[x].len() && forall|j: int|
            0 <= j < g1[x].len() && j != y ==> g2[x][j].energy == g1[x][j].energy,
    ensures
        spec_view_cols_energy(g2, k) == spec_view_cols_energy(g1, k) + if 0 <= x < k {
            g2[x][y].energy - g1[x][y].energy
        } else {
            0int
        },
    decreases k,
{
    if k > 0 {
        lemma_view_cols_energy_except(g1, g2, k - 1, x, y);
        if x == k - 1 {
            lemma_view_row_energy_except(g1[k - 1], g2[k - 1], g1[k - 1].len() as int, y);
        }
    }
}

/// Replacing one cell of a ghost grid moves its total energy by exactly
/// that cell's energy difference.
pub proof fn lemma_view_energy_update(g: Seq<Seq<CellView>>, x: int, y: int, c: CellView)
    requires
        0 <= x < g.len(),
        0 <= y < g[x].len(),
    ensures
        spec_view_energy(grid_with(g, x, y, c)) == spec_view_energy(g) - g[x][y].energy + c.energy,
{
    lemma_view_cols_energy_except(g, grid_with(g, x, y, c), g.len() as int, x, y);
}

/// A pond stays well-formed when one cell changes to a well-formed state.
proof fn lemma_wf_after_update(pre: CellPond, post: CellPond, x: int, y: int)
    requires
        pre.wf(),
        post.dims_ok(),
        CellPond::same_except(pre, post, x, y),
        0 <= x < POND_WIDTH,
        0 <= y < POND_HEIGHT,
        post.spec_cell(x, y).wf(),
    ensures
        post.wf(),
{
    assert forall|i: int, j: int|
        0 <= i < POND_WIDTH && 0 <= j < POND_HEIGHT implies (#[trigger] post.spec_cell(
        i,
        j,
    )).wf() by {
        if !(i == x && j == y) {
            assert(post.spec_cell(i, j) == pre.spec_cell(i, j));
        }
    }
}

impl CellPond {
    /// The grid has its full width, and every column its full height.
    pub open spec fn dims_ok(self) -> bool {
        self.grid@.len() == POND_WIDTH && forall|x: int|
            0 <= x < POND_WIDTH ==> (#[trigger] self.grid@[x])@.len() == POND_HEIGHT
    }

    /// The ghost value of the cell in column `x`, row `y`.
    pub open spec fn spec_cell(self, x: int, y: int) -> CellView {
        self.grid@[x]@[y]@
    }

    /// A pond has full dimensions and well-formed cells everywhere.
    pub open spec fn wf(self) -> bool {
        self.dims_ok() && forall|x: int, y: int|
            0 <= x < POND_WIDTH && 0 <= y < POND_HEIGHT ==> (#[trigger] self.spec_cell(
                x,
                y,
            )).wf()
    }

    /// Every cell outside the given position is unchanged between the two
    /// ponds.
    pub open spec fn same_except(pre: CellPond, post: CellPond, x: int, y: int) -> bool {
        forall|i: int, j: int|
            0 <= i < POND_WIDTH && 0 <= j < POND_HEIGHT && !(i == x && j == y)
                ==> #[trigger] post.spec_cell(i, j) == pre.spec_cell(i, j)
    }

    /// A pond of fresh cells with random genomes, one id per cell in grid
    /// order, columns outermost.
    pub fn new(id_generator: &mut CellIdGenerator, generator: &mut RandomGenerator) -> (p:
        CellPond)
        requires
            old(id_generator).current + POND_WIDTH * POND_HEIGHT <= usize::MAX,
        ensures
            p.wf(),
            final(id_generator).current == old(id_generator).current + POND_WIDTH * POND_HEIGHT,
            *final(generator) == spec_step_n(
                *old(generator),
                (POND_WIDTH * POND_HEIGHT * GENOME_SIZE) as nat,
            ),
            forall|x: int, y: int|
                0 <= x < POND_WIDTH && 0 <= y < POND_HEIGHT ==> #[trigger] p.spec_cell(x, y)
                    == (CellView {
                    id: (old(id_generator).current + x * POND_HEIGHT + y + 1) as usize,
                    parent_id: None,
                    lineage: (old(id_generator).current + x * POND_HEIGHT + y + 1) as usize,
                    generation: 0,
                    energy: INFLOW_RATE_BASE,
                    genome: spec_random_genome(
                        spec_step_n(*old(generator), ((x * POND_HEIGHT + y) * GENOME_SIZE) as nat),
                    ),
                }),
            forall|x: int, y: int|
                0 <= x < POND_WIDTH && 0 <= y < POND_HEIGHT ==> (#[trigger] p.spec_cell(
                    x,
                    y,
                )).founds_own_line(),
    {
        let mut grid: Vec<Vec<Cell>> = Vec::new();
        let mut x: usize = 0;
        while x < POND_WIDTH
            invariant
                x <= POND_WIDTH,
                grid@.len() == x,
                old(id_generator).current + POND_WIDTH * POND_HEIGHT <= usize::MAX,
                id_generator.current == old(id_generator).current + x * POND_HEIGHT,
                *generator == spec_step_n(*old(generator), (x * POND_HEIGHT * GENOME_SIZE) as nat),
                forall|i: int| 0 <= i < x ==> (#[trigger] grid@[i])@.len() == POND_HEIGHT,
                forall|i: int, j: int|
                    0 <= i < x && 0 <= j < POND_HEIGHT ==> #[trigger] (grid@[i]@[j])@
                        == (CellView {
                        id: (old(id_generator).current + i * POND_HEIGHT + j + 1) as usize,
                        parent_id: None,
                        lineage: (old(id_generator).current + i * POND_HEIGHT + j + 1) as usize,
                        generation: 0,
                        energy: INFLOW_RATE_BASE,
                        genome: spec_random_genome(
                            spec_step_n(
                                *old(generator),
                                ((i * POND_HEIGHT + j) * GENOME_SIZE) as nat,
                            ),
                        ),
                    }),
            decreases POND_WIDTH - x,
        {
            let mut row: Vec<Cell> = Vec::new();
            let mut y: usize = 0;
            while y < POND_HEIGHT
                invariant
                    x < POND_WIDTH,
                    y <= POND_HEIGHT,
                    row@.len() == y,
                    old(id_generator).current + POND_WIDTH * POND_HEIGHT <= usize::MAX,
                    id_generator.current == old(id_generator).current + x * POND_HEIGHT + y,
                    *generator == spec_step_n(
                        *old(generator),
                        ((x * POND_HEIGHT + y) * GENOME_SIZE) as nat,
                    ),
                    forall|j: int|
                        0 <= j < y ==> #[trigger] (row@[j])@ == (CellView {
                            id: (old(id_generator).current + x * POND_HEIGHT + j + 1) as usize,
                            parent_id: None,
                            lineage: (old(id_generator).current + x * POND_HEIGHT + j + 1) as usize,
                            generation: 0,
                            energy: INFLOW_RATE_BASE,
                            genome: spec_random_genome(
                                spec_step_n(
                                    *old(generator),
                                    ((x * POND_HEIGHT + j) * GENOME_SIZE) as nat,
                                ),
                            ),
                        }),
                decreases POND_HEIGHT - y,
            {
                proof {
                    assert(x * POND_HEIGHT + y < POND_WIDTH * POND_HEIGHT) by (nonlinear_arith)
                        requires
                            x < POND_WIDTH,
                            y < POND_HEIGHT,
                    ;
                }
                let ghost pre_rng = *generator;
                let c = Cell::random(id_generator, generator);
                proof {
                    lemma_step_n_add(
                        *old(generator),
                        ((x * POND_HEIGHT + y) * GENOME_SIZE) as nat,
                        GENOME_SIZE as nat,
                    );
                    assert((x * POND_HEIGHT + y) * GENOME_SIZE + GENOME_SIZE == (x * POND_HEIGHT + y
                        + 1) * GENOME_SIZE) by (nonlinear_arith);
                }
                row.push(c);
                y = y + 1;
            }
            grid.push(row);
            proof {
                assert((x * POND_HEIGHT + POND_HEIGHT) * GENOME_SIZE == ((x + 1) * POND_HEIGHT)
                    * GENOME_SIZE) by (nonlinear_arith);
                assert(x * POND_HEIGHT + POND_HEIGHT == (x + 1) * POND_HEIGHT) by (nonlinear_arith);
            }
            x = x + 1;
        }
        CellPond { grid }
    }

    /// A pond of fresh cells with inert genomes, one id per cell in grid
    /// order, columns outermost.
    pub fn inert(id_generator: &mut CellIdGenerator) -> (p: CellPond)
        requires
            old(id_generator).current + POND_WIDTH * POND_HEIGHT <= usize::MAX,
        ensures
            p.wf(),
            final(id_generator).current == old(id_generator).current + POND_WIDTH * POND_HEIGHT,
            forall|x: int, y: int|
                0 <= x < POND_WIDTH && 0 <= y < POND_HEIGHT ==> #[trigger] p.spec_cell(x, y)
                    == (CellView {
                    id: (old(id_generator).current + x * POND_HEIGHT + y + 1) as usize,
                    parent_id: None,
                    lineage: (old(id_generator).current + x * POND_HEIGHT + y + 1) as usize,
                    generation: 0,
                    energy: INFLOW_RATE_BASE,
                    genome: crate::genome::spec_inert_genome(),
                }),
            forall|x: int, y: int|
                0 <= x < POND_WIDTH && 0 <= y < POND_HEIGHT ==> (#[trigger] p.spec_cell(
                    x,
                    y,
                )).founds_own_line(),
    {
        let mut grid: Vec<Vec<Cell>> = Vec::new();
        let mut x: usize = 0;
        while x < POND_WIDTH
            invariant
                x <= POND_WIDTH,
                grid@.len() == x,
                old(id_generator).current + POND_WIDTH * POND_HEIGHT <= usize::MAX,
                id_generator.current == old(id_generator).current + x * POND_HEIGHT,
                forall|i: int| 0 <= i < x ==> (#[trigger] grid@[i])@.len() == POND_HEIGHT,
                forall|i: int, j: int|
                    0 <= i < x && 0 <= j < POND_HEIGHT ==> #[trigger] (grid@[i]@[j])@
                        == (CellView {
                        id: (old(id_generator).current + i * POND_HEIGHT + j + 1) as usize,
                        parent_id: None,
                        lineage: (old(id_generator).current + i * POND_HEIGHT + j + 1) as usize,
                        generation: 0,
                        energy: INFLOW_RATE_BASE,
                        genome: crate::genome::spec_inert_genome(),
                    }),
            decreases POND_WIDTH - x,
        {
            let mut row: Vec<Cell> = Vec::new();
            let mut y: usize = 0;
            while y < POND_HEIGHT
                invariant
                    x < POND_WIDTH,
                    y <= POND_HEIGHT,
                    row@.len() == y,
                    old(id_generator).current + POND_WIDTH * POND_HEIGHT <= usize::MAX,
                    id_generator.current == old(id_generator).current + x * POND_HEIGHT + y,
                    forall|j: int|
                        0 <= j < y ==> #[trigger] (row@[j])@ == (CellView {
                            id: (old(id_generator).current + x * POND_HEIGHT + j + 1) as usize,
                            parent_id: None,
                            lineage: (old(id_generator).current + x * POND_HEIGHT + j + 1) as usize,
                            generation: 0,
                            energy: INFLOW_RATE_BASE,
                            genome: crate::genome::spec_inert_genome(),
                        }),
                decreases POND_HEIGHT - y,
            {
                proof {
                    assert(x * POND_HEIGHT + y < POND_WIDTH * POND_HEIGHT) by (nonlinear_arith)
                        requires
                            x < POND_WIDTH,
                            y < POND_HEIGHT,
                    ;
                }
                let c = Cell::new(id_generator);
                row.push(c);
                y = y + 1;
            }
            grid.push(row);
            proof {
                assert(x * POND_HEIGHT + POND_HEIGHT == (x + 1) * POND_HEIGHT) by (nonlinear_arith);
            }
            x = x + 1;
        }
        CellPond { grid }
    }

    /// Reads the cell at a position.
    pub fn cell(&self, position: &CellPosition) -> (c: &Cell)
        requires
            self.wf(),
            position.wf(),
        ensures
            c@ == self.spec_cell(position.0 as int, position.1 as int),
            c.wf(),
    {
        &self.grid[position.0][position.1]
    }

    /// Reads the cell adjacent in the given direction, with toroidal wrap.
    pub fn get_neighbor(&self, position: &CellPosition, facing: &Facing) -> (c: &Cell)
        requires
            self.wf(),
            position.wf(),
        ensures
            ({
                let np = spec_neighbor_position(*position, *facing);
                c@ == self.spec_cell(np.0 as int, np.1 as int) && c.wf()
            }),
    {
        let np = neighbor_position(position, facing);
        &self.grid[np.0][np.1]
    }

    /// Sets one cell's energy, touching nothing else.
    pub fn set_energy(&mut self, position: &CellPosition, energy: usize)
        requires
            old(self).wf(),
            position.wf(),
        ensures
            final(self).wf(),
            CellPond::same_except(*old(self), *final(self), position.0 as int, position.1 as int),
            final(self).spec_cell(position.0 as int, position.1 as int) == (CellView {
                energy,
                ..old(self).spec_cell(position.0 as int, position.1 as int)
            }),
            spec_pond_energy(*final(self)) == spec_pond_energy(*old(self)) + energy - old(
                self,
            ).spec_cell(position.0 as int, position.1 as int).energy,
    {
        self.grid[position.0][position.1].energy = energy;
        proof {
            lemma_wf_after_update(*old(self), *self, position.0 as int, position.1 as int);
            lemma_pond_energy_update(
                *old(self),
                *self,
                position.0 as int,
                position.1 as int,
            );
        }
    }

    /// Writes one nibble of one cell's genome, touching nothing else.
    pub fn genome_set(&mut self, position: &CellPosition, pointer: &GenomePointer, value: u8)
        requires
            old(self).wf(),
            position.wf(),
            pointer.wf(),
        ensures
            final(self).wf(),
            CellPond::same_except(*old(self), *final(self), position.0 as int, position.1 as int),
            final(self).spec_cell(position.0 as int, position.1 as int) == (CellView {
                genome: spec_set(
                    old(self).spec_cell(position.0 as int, position.1 as int).genome,
                    *pointer,
                    value,
                ),
                ..old(self).spec_cell(position.0 as int, position.1 as int)
            }),
            spec_pond_energy(*final(self)) == spec_pond_energy(*old(self)),
    {
        self.grid[position.0][position.1].genome.set(pointer, value);
        proof {
            lemma_wf_after_update(*old(self), *self, position.0 as int, position.1 as int);
            lemma_pond_energy_update(
                *old(self),
                *self,
                position.0 as int,
                position.1 as int,
            );
        }
    }

    /// Overwrites the cell at a position with a freshly spawned state: the
    /// given id as both id and lineage, no parent, generation zero, inflow
    /// energy, and the given genome.
    pub fn replace(&mut self, position: &CellPosition, new_id: CellId, genome: Genome)
        requires
            old(self).wf(),
            position.wf(),
            genome.wf(),
        ensures
            final(self).wf(),
            CellPond::same_except(*old(self), *final(self), position.0 as int, position.1 as int),
            final(self).spec_cell(position.0 as int, position.1 as int) == (CellView {
                id: new_id.0,
                parent_id: None,
                lineage: new_id.0,
                generation: 0,
                energy: INFLOW_RATE_BASE,
                genome: genome@,
            }),
            final(self).spec_cell(position.0 as int, position.1 as int).founds_own_line(),
    {
        let cell = Cell {
            id: new_id,
            parent_id: None,
            lineage: new_id,
            generation: 0,
            energy: INFLOW_RATE_BASE,
            genome,
        };
        self.grid[position.0][position.1] = cell;
        proof {
            lemma_wf_after_update(*old(self), *self, position.0 as int, position.1 as int);
        }
    }

    /// Wipes the cell at a position after a kill: a fresh id founding its
    /// own line, no parent, generation zero, the first two genome bytes set
    /// to all ones, and its energy untouched.
    pub fn wipe(&mut self, position: &CellPosition, new_id: CellId)
        requires
            old(self).wf(),
            position.wf(),
        ensures
            final(self).wf(),
            CellPond::same_except(*old(self), *final(self), position.0 as int, position.1 as int),
            final(self).spec_cell(position.0 as int, position.1 as int) == (CellView {
                id: new_id.0,
                parent_id: None,
                lineage: new_id.0,
                generation: 0,
                energy: old(self).spec_cell(position.0 as int, position.1 as int).energy,
                genome: old(self).spec_cell(position.0 as int, position.1 as int).genome.update(
                    0,
                    0xffu8,
                ).update(1, 0xffu8),
            }),
            final(self).spec_cell(position.0 as int, position.1 as int).founds_own_line(),
            spec_pond_energy(*final(self)) == spec_pond_energy(*old(self)),
    {
        let cell = &mut self.grid[position.0][position.1];
        cell.id = new_id;
        cell.genome.0[0] = 0xff;
        cell.genome.0[1] = 0xff;
        cell.parent_id = None;
        cell.lineage = new_id;
        cell.generation = 0;
        proof {
            lemma_wf_after_update(*old(self), *self, position.0 as int, position.1 as int);
            lemma_pond_energy_update(
                *old(self),
                *self,
                position.0 as int,
                position.1 as int,
            );
        }
    }

    /// Overwrites the cell at a position with offspring state: a fresh id,
    /// the given parent, lineage and generation, the given genome, and its
    /// energy untouched.
    pub fn birth(
        &mut self,
        position: &CellPosition,
        new_id: CellId,
        parent: CellId,
        lineage: CellId,
        generation: usize,
        genome: Genome,
    )
        requires
            old(self).wf(),
            position.wf(),
            genome.wf(),
        ensures
            final(self).wf(),
            CellPond::same_except(*old(self), *final(self), position.0 as int, position.1 as int),
            final(self).spec_cell(position.0 as int, position.1 as int) == (CellView {
                id: new_id.0,
                parent_id: Some(parent.0),
                lineage: lineage.0,
                generation,
                energy: old(self).spec_cell(position.0 as int, position.1 as int).energy,
                genome: genome@,
            }),
            spec_pond_energy(*final(self)) == spec_pond_energy(*old(self)),
    {
        let cell = &mut self.grid[position.0][position.1];
        cell.id = new_id;
        cell.parent_id = Some(parent);
        cell.lineage = lineage;
        cell.generation = generation;
        cell.genome = genome;
        proof {
            lemma_wf_after_update(*old(self), *self, position.0 as int, position.1 as int);
            lemma_pond_energy_update(
                *old(self),
                *self,
                position.0 as int,
                position.1 as int,
            );
        }
    }

    /// The pond's total energy, clamped to the largest machine word.
    pub fn total_energy(&self) -> (r: usize)
        requires
            self.wf(),
        ensures
            r == if spec_pond_energy(*self) <= usize::MAX {
                spec_pond_energy(*self)
            } else {
                usize::MAX as int
            },
    {
        let mut acc: usize = 0;
        let mut x: usize = 0;
        while x < POND_WIDTH
            invariant
                self.wf(),
                x <= POND_WIDTH,
                acc as int == if spec_grid_energy(self.grid@, x as int) <= usize::MAX {
                    spec_grid_energy(self.grid@, x as int)
                } else {
                    usize::MAX as int
                },
            decreases POND_WIDTH - x,
        {
            let row = &self.grid[x];
            let mut y: usize = 0;
            while y < POND_HEIGHT
                invariant
                    self.wf(),
                    x < POND_WIDTH,
                    y <= POND_HEIGHT,
                    row == &self.grid[x as int],
                    row@.len() == POND_HEIGHT,
                    acc as int == if spec_grid_energy(self.grid@, x as int) + spec_row_energy(
                        row@,
                        y as int,
                    ) <= usize::MAX {
                        spec_grid_energy(self.grid@, x as int) + spec_row_energy(row@, y as int)
                    } else {
                        usize::MAX as int
                    },
                decreases POND_HEIGHT - y,
            {
                proof {
                    lemma_grid_energy_nonneg(self.grid@, x as int);
                    lemma_row_energy_nonneg(row@, y as int);
                }
                acc = acc.saturating_add(row[y].energy);
                y = y + 1;
            }
            x = x + 1;
        }
        acc
    }

    /// The number of cells holding any energy.
    pub fn total_active_cells(&self) -> (r: usize)
        requires
            self.wf(),
        ensures
            r == spec_grid_active(self.grid@, POND_WIDTH as int),
    {
        let mut acc: usize = 0;
        let mut x: usize = 0;
        while x < POND_WIDTH
            invariant
                self.wf(),
                x <= POND_WIDTH,
                acc as int == spec_grid_active(self.grid@, x as int),
                acc <= x * POND_HEIGHT,
            decreases POND_WIDTH - x,
        {
            let row = &self.grid[x];
            let mut y: usize = 0;
            while y < POND_HEIGHT
                invariant
                    self.wf(),
                    x < POND_WIDTH,
                    y <= POND_HEIGHT,
                    row == &self.grid[x as int],
                    row@.len() == POND_HEIGHT,
                    acc as int == spec_grid_active(self.grid@, x as int) + spec_row_active(
                        row@,
                        y as int,
                    ),
                    acc <= x * POND_HEIGHT + y,
                decreases POND_HEIGHT - y,
            {
                proof {
                    assert(x * POND_HEIGHT + y < POND_WIDTH * POND_HEIGHT) by (nonlinear_arith)
                        requires
                            x < POND_WIDTH,
                            y < POND_HEIGHT,
                    ;
                }
                if row[y].energy > 0 {
                    acc = acc + 1;
                }
                y = y + 1;
            }
            proof {
                assert(x * POND_HEIGHT + POND_HEIGHT == (x + 1) * POND_HEIGHT) by (nonlinear_arith);
            }
            x = x + 1;
        }
        acc
    }

    /// The number of viable replicators: active cells beyond the second
    /// generation.
    pub fn total_viable_replicators(&self) -> (r: usize)
        requires
            self.wf(),
        ensures
            r == spec_grid_viable(self.grid@, POND_WIDTH as int),
    {
        let mut acc: usize = 0;
        let mut x: usize = 0;
        while x < POND_WIDTH
            invariant
                self.wf(),
                x <= POND_WIDTH,
                acc as int == spec_grid_viable(self.grid@, x as int),
                acc <= x * POND_HEIGHT,
            decreases POND_WIDTH - x,
        {
            let row = &self.grid[x];
            let mut y: usize = 0;
            while y < POND_HEIGHT
                invariant
                    self.wf(),
                    x < POND_WIDTH,
                    y <= POND_HEIGHT,
                    row == &self.grid[x as int],
                    row@.len() == POND_HEIGHT,
                    acc as int == spec_grid_viable(self.grid@, x as int) + spec_row_viable(
                        row@,
                        y as int,
                    ),
                    acc <= x * POND_HEIGHT + y,
                decreases POND_HEIGHT - y,
            {
                proof {
                    assert(x * POND_HEIGHT + y < POND_WIDTH * POND_HEIGHT) by (nonlinear_arith)
                        requires
                            x < POND_WIDTH,
                            y < POND_HEIGHT,
                    ;
                }
                if row[y].energy > 0 && row[y].generation > 2 {
                    acc = acc + 1;
                }
                y = y + 1;
            }
            proof {
                assert(x * POND_HEIGHT + POND_HEIGHT == (x + 1) * POND_HEIGHT) by (nonlinear_arith);
            }
            x = x + 1;
        }
        acc
    }

    /// The largest generation among active cells, or zero if none is active.
    pub fn max_generation(&self) -> (r: usize)
        requires
            self.wf(),
        ensures
            r == spec_grid_max_generation(self.grid@, POND_WIDTH as int, 0),
    {
        let mut acc: usize = 0;
        let mut x: usize = 0;
        while x < POND_WIDTH
            invariant
                self.wf(),
                x <= POND_WIDTH,
                acc as int == spec_grid_max_generation(self.grid@, x as int, 0),
            decreases POND_WIDTH - x,
        {
            let row = &self.grid[x];
            let mut y: usize = 0;
            while y < POND_HEIGHT
                invariant
                    self.wf(),
                    x < POND_WIDTH,
                    y <= POND_HEIGHT,
                    row == &self.grid[x as int],
                    row@.len() == POND_HEIGHT,
                    acc as int == spec_row_max_generation(
                        row@,
                        y as int,
                        spec_grid_max_generation(self.grid@, x as int, 0),
                    ),
                decreases POND_HEIGHT - y,
            {
                if row[y].energy > 0 && row[y].generation > acc {
                    acc = row[y].generation;
                }
                y = y + 1;
            }
            x = x + 1;
        }
        acc
    }
}

} // verus!
