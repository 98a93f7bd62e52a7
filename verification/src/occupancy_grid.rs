use crate::grid2::{Cell, Grid2, GridShape};
use vstd::prelude::*;

verus! {

/// What the cells of the outermost ring hold: as many players as a cell can
/// count, so that players always steer away from the edge.
pub const BLOCKED: u8 = u8::MAX;

/// Whether a player at `agent` is counted in column `x` and row `y`.
pub open spec fn stands_in(agent: Cell, shape: GridShape, x: int, y: int) -> bool {
    shape.clamp_x(agent.x as int) == x && shape.clamp_y(agent.y as int) == y
}

/// How many of `agents` are counted in column `x` and row `y`.
pub open spec fn occupancy(agents: Seq<Cell>, shape: GridShape, x: int, y: int) -> nat
    decreases agents.len(),
{
    if agents.len() == 0 {
        0
    } else {
        occupancy(agents.drop_last(), shape, x, y) + if stands_in(agents.last(), shape, x, y) {
            1nat
        } else {
            0nat
        }
    }
}

/// How many of `agents` are counted in a cell inside the outermost ring.
pub open spec fn interior_agents(agents: Seq<Cell>, shape: GridShape) -> nat
    decreases agents.len(),
{
    if agents.len() == 0 {
        0
    } else {
        interior_agents(agents.drop_last(), shape) + if shape.in_interior(
            shape.clamp_x(agents.last().x as int),
            shape.clamp_y(agents.last().y as int),
        ) {
            1nat
        } else {
            0nat
        }
    }
}

/// `n` as a cell counts it: up to 255 and no further.
pub open spec fn saturated(n: nat) -> u8 {
    if n >= 255 {
        255
    } else {
        n as u8
    }
}

/// The sum of `f` over the columns from `lo` up to, not including, `hi` of
/// row `y`.
pub open spec fn row_sum(f: spec_fn(int, int) -> int, y: int, lo: int, hi: int) -> int
    decreases hi - lo,
{
    if hi <= lo {
        0
    } else {
        row_sum(f, y, lo, hi - 1) + f(hi - 1, y)
    }
}

/// The sum of `f` over the columns from `x_lo` up to, not including, `x_hi`
/// of the rows from `y_lo` up to, not including, `y_hi`.
pub open spec fn block_sum(
    f: spec_fn(int, int) -> int,
    x_lo: int,
    x_hi: int,
    y_lo: int,
    y_hi: int,
) -> int
    decreases y_hi - y_lo,
{
    if y_hi <= y_lo {
        0
    } else {
        block_sum(f, x_lo, x_hi, y_lo, y_hi - 1) + row_sum(f, y_hi - 1, x_lo, x_hi)
    }
}

/// The players in four cells around a player: one column or one row away.
#[derive(Clone, Copy, Debug, PartialEq, Eq, Structural)]
pub struct NeighborCounts {
    /// In the cell one column down.
    pub lower_x: u8,
    /// In the cell one column up.
    pub upper_x: u8,
    /// In the cell one row down.
    pub lower_y: u8,
    /// In the cell one row up.
    pub upper_y: u8,
}

impl NeighborCounts {
    /// The players in all four cells.
    pub fn total(&self) -> (n: u16)
        ensures
            n == self.lower_x + self.upper_x + self.lower_y + self.upper_y,
    {
        self.lower_x as u16 + self.upper_x as u16 + self.lower_y as u16 + self.upper_y as u16
    }
}

/// Counts, cell by cell, the players in play.
pub struct OccupancyGrid {
    pub players_in_cell: Grid2<u8>,
}

impl OccupancyGrid {
    pub open spec fn wf(&self) -> bool {
        self.players_in_cell.wf()
    }

    pub open spec fn shape(&self) -> GridShape {
        self.players_in_cell.shape()
    }

    /// Whether the grid holds the count of `agents`: every cell of the
    /// outermost ring is blocked, and every cell inside it holds the number
    /// of players that stand in it, up to 255.
    pub open spec fn counts(&self, agents: Seq<Cell>) -> bool {
        forall|x: int, y: int|
            self.shape().contains(x, y) ==> #[trigger] self.players_in_cell.at(x, y) == if self.shape().on_boundary(
                x,
                y,
            ) {
                BLOCKED
            } else {
                saturated(occupancy(agents, self.shape(), x, y))
            }
    }

    /// The sum of the counts of the cells inside the outermost ring.
    pub open spec fn interior_total(&self) -> int {
        block_sum(
            |x: int, y: int| self.players_in_cell.at(x, y) as int,
            1,
            self.shape().x - 1,
            1,
            self.shape().y - 1,
        )
    }

    /// A grid of the given shape on which nobody has been counted yet.
    pub fn new(shape: GridShape) -> (grid: Self)
        requires
            shape.valid(),
        ensures
            grid.wf(),
            grid.shape() == shape,
            forall|x: int, y: int|
                shape.contains(x, y) ==> #[trigger] grid.players_in_cell.at(x, y) == 0,
    {
        OccupancyGrid { players_in_cell: Grid2::new_fill(shape, 0) }
    }

    /// Counts the players anew, each in the cell that its place names.
    pub fn update(&mut self, agents: &Vec<Cell>)
        requires
            old(self).wf(),
        ensures
            final(self).wf(),
            final(self).shape() == old(self).shape(),
            final(self).counts(agents@),
    {
        self.players_in_cell.fill(0);
        self.players_in_cell.fill_boundary(BLOCKED);
        let ghost shape = self.shape();
        let mut k: usize = 0;
        while k < agents.len()
            invariant
                k <= agents.len(),
                self.wf(),
                self.shape() == shape,
                shape == old(self).shape(),
                self.counts(agents@.take(k as int)),
            decreases agents.len() - k,
        {
            let agent = agents[k];
            let ghost before = agents@.take(k as int);
            let ghost after = agents@.take(k + 1);
            let ghost held = *self;
            let n: u8 = *self.players_in_cell.index(agent);
            let counted: u8 = if n < u8::MAX {
                n + 1
            } else {
                n
            };
            self.players_in_cell.set(agent, counted);
            proof {
                held.players_in_cell.shape_is_valid();
                assert(after.drop_last() =~= before);
                assert(after.last() == agent);
                let cx = shape.clamp_x(agent.x as int);
                let cy = shape.clamp_y(agent.y as int);
                assert(shape.contains(cx, cy));
                assert(n == held.players_in_cell.at(cx, cy));
                assert forall|x: int, y: int| shape.contains(x, y) implies #[trigger] self.players_in_cell.at(
                    x,
                    y,
                ) == if shape.on_boundary(x, y) {
                    BLOCKED
                } else {
                    saturated(occupancy(after, shape, x, y))
                } by {
                    assert(held.players_in_cell.at(x, y) == if shape.on_boundary(x, y) {
                        BLOCKED
                    } else {
                        saturated(occupancy(before, shape, x, y))
                    });
                }
            }
            k += 1;
        }
        proof {
            assert(agents@.take(k as int) =~= agents@);
        }
    }

    /// The counts of the four cells next to the one that `cell` names.
    pub fn nearby_players(&self, cell: Cell) -> (near: NeighborCounts)
        requires
            self.wf(),
        ensures
            near.lower_x == self.players_in_cell.at(
                self.shape().clamp_x(cell.x - 1),
                self.shape().clamp_y(cell.y as int),
            ),
            near.upper_x == self.players_in_cell.at(
                self.shape().clamp_x(cell.x + 1),
                self.shape().clamp_y(cell.y as int),
            ),
            near.lower_y == self.players_in_cell.at(
                self.shape().clamp_x(cell.x as int),
                self.shape().clamp_y(cell.y - 1),
            ),
            near.upper_y == self.players_in_cell.at(
                self.shape().clamp_x(cell.x as int),
                self.shape().clamp_y(cell.y + 1),
            ),
    {
        proof {
            self.players_in_cell.shape_is_valid();
        }
        let x_down: i32 = if cell.x > i32::MIN {
            cell.x - 1
        } else {
            cell.x
        };
        let x_up: i32 = if cell.x < i32::MAX {
            cell.x + 1
        } else {
            cell.x
        };
        let y_down: i32 = if cell.y > i32::MIN {
            cell.y - 1
        } else {
            cell.y
        };
        let y_up: i32 = if cell.y < i32::MAX {
            cell.y + 1
        } else {
            cell.y
        };
        NeighborCounts {
            lower_x: *self.players_in_cell.index(Cell { x: x_down, y: cell.y }),
            upper_x: *self.players_in_cell.index(Cell { x: x_up, y: cell.y }),
            lower_y: *self.players_in_cell.index(Cell { x: cell.x, y: y_down }),
            upper_y: *self.players_in_cell.index(Cell { x: cell.x, y: y_up }),
        }
    }
}

/// Where `g` is `f` but for one more in column `cx` of row `cy`, the sum of
/// `g` over a stretch of row `y` is that of `f`, and one more if the stretch
/// holds that cell.
proof fn lemma_row_bump(
    f: spec_fn(int, int) -> int,
    g: spec_fn(int, int) -> int,
    y: int,
    lo: int,
    hi: int,
    cx: int,
    cy: int,
)
    requires
        forall|x: int|
            lo <= x < hi ==> #[trigger] g(x, y) == f(x, y) + if x == cx && y == cy {
                1int
            } else {
                0int
            },
    ensures
        row_sum(g, y, lo, hi) == row_sum(f, y, lo, hi) + if y == cy && lo <= cx < hi {
            1int
        } else {
            0int
        },
    decreases hi - lo,
{
    if hi > lo {
        lemma_row_bump(f, g, y, lo, hi - 1, cx, cy);
        assert(g(hi - 1, y) == f(hi - 1, y) + if hi - 1 == cx && y == cy {
            1int
        } else {
            0int
        });
    }
}

/// Where `g` is `f` but for one more in column `cx` of row `cy`, the sum of
/// `g` over a block is that of `f`, and one more if the block holds that
/// cell.
proof fn lemma_block_bump(
    f: spec_fn(int, int) -> int,
    g: spec_fn(int, int) -> int,
    x_lo: int,
    x_hi: int,
    y_lo: int,
    y_hi: int,
    cx: int,
    cy: int,
)
    requires
        forall|x: int, y: int|
            x_lo <= x < x_hi && y_lo <= y < y_hi ==> #[trigger] g(x, y) == f(x, y) + if x == cx
                && y == cy {
                1int
            } else {
                0int
            },
    ensures
        block_sum(g, x_lo, x_hi, y_lo, y_hi) == block_sum(f, x_lo, x_hi, y_lo, y_hi) + if x_lo
            <= cx < x_hi && y_lo <= cy < y_hi {
            1int
        } else {
            0int
        },
    decreases y_hi - y_lo,
{
    if y_hi > y_lo {
        lemma_block_bump(f, g, x_lo, x_hi, y_lo, y_hi - 1, cx, cy);
        lemma_row_bump(f, g, y_hi - 1, x_lo, x_hi, cx, cy);
    }
}

/// A function that is zero all over a block sums to zero over it.
proof fn lemma_block_of_zeros(f: spec_fn(int, int) -> int, x_lo: int, x_hi: int, y_lo: int, y_hi: int)
    requires
        forall|x: int, y: int| x_lo <= x < x_hi && y_lo <= y < y_hi ==> #[trigger] f(x, y) == 0,
    ensures
        block_sum(f, x_lo, x_hi, y_lo, y_hi) == 0,
    decreases y_hi - y_lo,
{
    if y_hi > y_lo {
        lemma_block_of_zeros(f, x_lo, x_hi, y_lo, y_hi - 1);
        lemma_row_of_zeros(f, y_hi - 1, x_lo, x_hi);
    }
}

proof fn lemma_row_of_zeros(f: spec_fn(int, int) -> int, y: int, lo: int, hi: int)
    requires
        forall|x: int| lo <= x < hi ==> #[trigger] f(x, y) == 0,
    ensures
        row_sum(f, y, lo, hi) == 0,
    decreases hi - lo,
{
    if hi > lo {
        lemma_row_of_zeros(f, y, lo, hi - 1);
    }
}

/// Two functions that agree all over a block have the same sum over it.
proof fn lemma_block_sums_agree(
    f: spec_fn(int, int) -> int,
    g: spec_fn(int, int) -> int,
    x_lo: int,
    x_hi: int,
    y_lo: int,
    y_hi: int,
)
    requires
        forall|x: int, y: int| x_lo <= x < x_hi && y_lo <= y < y_hi ==> #[trigger] g(x, y) == f(x, y),
    ensures
        block_sum(g, x_lo, x_hi, y_lo, y_hi) == block_sum(f, x_lo, x_hi, y_lo, y_hi),
{
    lemma_block_bump(f, g, x_lo, x_hi, y_lo, y_hi, x_lo - 1, y_lo - 1);
}

/// Where `f` is nowhere greater than `g` over a block, neither is its sum.
proof fn lemma_block_sums_in_order(
    f: spec_fn(int, int) -> int,
    g: spec_fn(int, int) -> int,
    x_lo: int,
    x_hi: int,
    y_lo: int,
    y_hi: int,
)
    requires
        forall|x: int, y: int| x_lo <= x < x_hi && y_lo <= y < y_hi ==> #[trigger] f(x, y) <= g(x, y),
    ensures
        block_sum(f, x_lo, x_hi, y_lo, y_hi) <= block_sum(g, x_lo, x_hi, y_lo, y_hi),
    decreases y_hi - y_lo,
{
    if y_hi > y_lo {
        lemma_block_sums_in_order(f, g, x_lo, x_hi, y_lo, y_hi - 1);
        lemma_row_sums_in_order(f, g, y_hi - 1, x_lo, x_hi);
    }
}

proof fn lemma_row_sums_in_order(
    f: spec_fn(int, int) -> int,
    g: spec_fn(int, int) -> int,
    y: int,
    lo: int,
    hi: int,
)
    requires
        forall|x: int| lo <= x < hi ==> #[trigger] f(x, y) <= g(x, y),
    ensures
        row_sum(f, y, lo, hi) <= row_sum(g, y, lo, hi),
    decreases hi - lo,
{
    if hi > lo {
        lemma_row_sums_in_order(f, g, y, lo, hi - 1);
        assert(f(hi - 1, y) <= g(hi - 1, y));
    }
}

/// Summed over the cells inside the outermost ring, the numbers of players
/// that stand in each cell come to the number of players that stand inside
/// the ring.
pub proof fn occupancy_sums_to_interior_agents(agents: Seq<Cell>, shape: GridShape)
    ensures
        block_sum(
            |x: int, y: int| occupancy(agents, shape, x, y) as int,
            1,
            shape.x - 1,
            1,
            shape.y - 1,
        ) == interior_agents(agents, shape),
    decreases agents.len(),
{
    let g = |x: int, y: int| occupancy(agents, shape, x, y) as int;
    if agents.len() == 0 {
        lemma_block_of_zeros(g, 1, shape.x - 1, 1, shape.y - 1);
    } else {
        let rest = agents.drop_last();
        let f = |x: int, y: int| occupancy(rest, shape, x, y) as int;
        let cx = shape.clamp_x(agents.last().x as int);
        let cy = shape.clamp_y(agents.last().y as int);
        occupancy_sums_to_interior_agents(rest, shape);
        assert forall|x: int, y: int| 1 <= x < shape.x - 1 && 1 <= y < shape.y - 1 implies #[trigger] g(
            x,
            y,
        ) == f(x, y) + if x == cx && y == cy {
            1int
        } else {
            0int
        } by {}
        lemma_block_bump(f, g, 1, shape.x - 1, 1, shape.y - 1, cx, cy);
    }
}

/// Where every player stands inside the outermost ring, the players inside
/// the ring are all players.
pub proof fn all_agents_are_interior(agents: Seq<Cell>, shape: GridShape)
    requires
        forall|i: int|
            0 <= i < agents.len() ==> shape.in_interior(
                shape.clamp_x((#[trigger] agents[i]).x as int),
                shape.clamp_y(agents[i].y as int),
            ),
    ensures
        interior_agents(agents, shape) == agents.len(),
    decreases agents.len(),
{
    if agents.len() > 0 {
        let rest = agents.drop_last();
        assert forall|i: int| 0 <= i < rest.len() implies shape.in_interior(
            shape.clamp_x((#[trigger] rest[i]).x as int),
            shape.clamp_y(rest[i].y as int),
        ) by {
            assert(rest[i] == agents[i]);
        }
        all_agents_are_interior(rest, shape);
        assert(agents.last() == agents[agents.len() - 1]);
    }
}

/// The players that stand inside the outermost ring are never more than all
/// players.
pub proof fn interior_agents_are_agents(agents: Seq<Cell>, shape: GridShape)
    ensures
        interior_agents(agents, shape) <= agents.len(),
    decreases agents.len(),
{
    if agents.len() > 0 {
        interior_agents_are_agents(agents.drop_last(), shape);
    }
}

/// On a grid that holds the count of `agents`, the counts of the cells inside
/// the outermost ring never sum to more than the number of players that
/// stand inside the ring, wherever the players stand and however many share
/// a cell.
pub proof fn interior_counts_never_exceed_agents(grid: OccupancyGrid, agents: Seq<Cell>)
    requires
        grid.wf(),
        grid.counts(agents),
    ensures
        grid.interior_total() <= interior_agents(agents, grid.shape()) <= agents.len(),
{
    let shape = grid.shape();
    let held = |x: int, y: int| grid.players_in_cell.at(x, y) as int;
    let stood = |x: int, y: int| occupancy(agents, shape, x, y) as int;
    assert forall|x: int, y: int| 1 <= x < shape.x - 1 && 1 <= y < shape.y - 1 implies #[trigger] held(
        x,
        y,
    ) <= stood(x, y) by {
        assert(shape.contains(x, y));
        assert(grid.players_in_cell.at(x, y) == saturated(occupancy(agents, shape, x, y)));
    }
    lemma_block_sums_in_order(held, stood, 1, shape.x - 1, 1, shape.y - 1);
    occupancy_sums_to_interior_agents(agents, shape);
    interior_agents_are_agents(agents, shape);
}

/// On a grid that holds the count of `agents`, the counts of the cells inside
/// the outermost ring sum to the number of players that stand inside the
/// ring, as long as no cell holds more players than it can count. Where all
/// players stand inside the ring, the sum is the number of players.
pub proof fn interior_counts_sum_to_agents(grid: OccupancyGrid, agents: Seq<Cell>)
    requires
        grid.wf(),
        grid.counts(agents),
        forall|x: int, y: int|
            grid.shape().in_interior(x, y) ==> #[trigger] occupancy(agents, grid.shape(), x, y)
                <= 255,
    ensures
        grid.interior_total() == interior_agents(agents, grid.shape()),
        (forall|i: int|
            0 <= i < agents.len() ==> grid.shape().in_interior(
                grid.shape().clamp_x((#[trigger] agents[i]).x as int),
                grid.shape().clamp_y(agents[i].y as int),
            )) ==> grid.interior_total() == agents.len(),
{
    let shape = grid.shape();
    let held = |x: int, y: int| grid.players_in_cell.at(x, y) as int;
    let stood = |x: int, y: int| occupancy(agents, shape, x, y) as int;
    assert forall|x: int, y: int| 1 <= x < shape.x - 1 && 1 <= y < shape.y - 1 implies #[trigger] held(
        x,
        y,
    ) == stood(x, y) by {
        assert(shape.contains(x, y));
        assert(shape.in_interior(x, y));
        assert(grid.players_in_cell.at(x, y) == saturated(occupancy(agents, shape, x, y)));
    }
    lemma_block_sums_agree(stood, held, 1, shape.x - 1, 1, shape.y - 1);
    occupancy_sums_to_interior_agents(agents, shape);
    if forall|i: int|
        0 <= i < agents.len() ==> shape.in_interior(
            shape.clamp_x((#[trigger] agents[i]).x as int),
            shape.clamp_y(agents[i].y as int),
        ) {
        all_agents_are_interior(agents, shape);
    }
}

} // verus!
