//! The rule engine: advancing a grid by one generation under a rule.

use vstd::prelude::*;

verus! {

use crate::grid::{Cell, Grid, neighbor_seq, lemma_neighbor_seq_upto_in_range, offset_count,
    coords_spec};
use crate::rule::{Neighbourhood, Rule};

/// A dead cell's counter after one more unborn generation: down by one,
/// saturating at zero.
pub open spec fn decayed(state: u8) -> u8 {
    if state == 0 {
        0u8
    } else {
        (state - 1) as u8
    }
}

/// The successor of one cell, given its live-neighbor count.
///
/// A living cell keeps living exactly when the count is in `survive`; a dead
/// cell is born exactly when the count is in `birth`. Any cell that just
/// lived, died, or was born takes the rule's `state`; a dead cell that stays
/// unborn decays instead.
pub open spec fn next_cell(cell: Cell, count: int, rule: Rule) -> Cell {
    if cell.alive {
        Cell { alive: rule.survive@.contains(count as u32), state: rule.state }
    } else if rule.birth@.contains(count as u32) {
        Cell { alive: true, state: rule.state }
    } else {
        Cell { alive: false, state: decayed(cell.state) }
    }
}

/// How many of the listed neighbor slots hold a living cell, counted in
/// enumeration order (an aliased slot listed twice counts twice).
pub open spec fn alive_count(cells: Seq<Cell>, neighbors: Seq<usize>) -> int
    decreases neighbors.len(),
{
    if neighbors.len() == 0 {
        0
    } else {
        alive_count(cells, neighbors.drop_last()) + if cells[neighbors.last() as int].alive {
            1int
        } else {
            0int
        }
    }
}

/// The live-neighbor count of the cell at `index`.
pub open spec fn neighbor_count(grid: Grid, neighbourhood: Neighbourhood, index: int) -> int {
    alive_count(
        grid.cells@,
        neighbor_seq(
            neighbourhood,
            grid.x_len as int,
            grid.y_len as int,
            grid.z_len as int,
            index,
        ),
    )
}

/// The whole next generation: every cell's successor, each computed from the
/// prior generation alone.
pub open spec fn next_cells(grid: Grid, rule: Rule) -> Seq<Cell> {
    Seq::new(
        grid.cells@.len(),
        |i: int| next_cell(grid.cells@[i], neighbor_count(grid, rule.neighbourhood, i), rule),
    )
}

/// What `step` returns: a grid with the same dimensions whose cell buffer is
/// exactly the next generation.
pub open spec fn is_step_result(grid: Grid, rule: Rule, next: Grid) -> bool {
    next.x_len == grid.x_len && next.y_len == grid.y_len && next.z_len == grid.z_len
        && next.cells@ == next_cells(grid, rule)
}

/// Whether `target` occurs in `values`.
fn contains_u32(values: &Vec<u32>, target: u32) -> (r: bool)
    ensures
        r == values@.contains(target),
{
    let mut j: usize = 0;
    while j < values.len()
        invariant
            j <= values@.len(),
            forall|k: int| 0 <= k < j ==> values@[k] != target,
        decreases values@.len() - j,
    {
        if values[j] == target {
            proof {
                assert(values@[j as int] == target);
            }
            return true;
        }
        j = j + 1;
    }
    false
}

/// Advances the grid by one generation: every cell's successor is computed
/// from the prior generation's snapshot, so the order of evaluation cannot
/// be observed and the grid's dimensions never change.
pub fn step(grid: &Grid, rule: &Rule) -> (next: Grid)
    requires
        grid.wf(),
    ensures
        next.wf(),
        is_step_result(*grid, *rule, next),
{
    let volume = grid.cells.len();
    let mut cells: Vec<Cell> = Vec::new();
    let mut index: usize = 0;
    while index < volume
        invariant
            grid.wf(),
            volume == grid.cells@.len(),
            index <= volume,
            cells@.len() == index,
            forall|i: int| 0 <= i < index ==> cells@[i] == next_cells(*grid, *rule)[i],
        decreases volume - index,
    {
        let neighbors = grid.neighbor_indices_core(index, rule.neighbourhood);
        proof {
            let c = coords_spec(index as int, grid.x_len as int, grid.y_len as int);
            lemma_neighbor_seq_upto_in_range(
                rule.neighbourhood,
                c.0,
                c.1,
                c.2,
                grid.x_len as int,
                grid.y_len as int,
                grid.volume(),
                index as int,
                offset_count(rule.neighbourhood),
            );
        }
        let mut sum: u32 = 0;
        let mut j: usize = 0;
        while j < neighbors.len()
            invariant
                grid.wf(),
                volume == grid.cells@.len(),
                j <= neighbors@.len(),
                neighbors@.len() <= 27,
                forall|k: int| 0 <= k < neighbors@.len() ==> (#[trigger] neighbors@[k]) < volume,
                sum <= j,
                sum as int == alive_count(grid.cells@, neighbors@.take(j as int)),
            decreases neighbors@.len() - j,
        {
            proof {
                assert(neighbors@.take(j as int + 1).drop_last() =~= neighbors@.take(j as int));
                assert(neighbors@.take(j as int + 1).last() == neighbors@[j as int]);
            }
            if grid.cells[neighbors[j]].alive {
                sum = sum + 1;
            }
            j = j + 1;
        }
        proof {
            assert(neighbors@.take(neighbors@.len() as int) =~= neighbors@);
            assert(sum as int == neighbor_count(*grid, rule.neighbourhood, index as int));
        }
        let this_cell = grid.cells[index];
        let new_cell: Cell = if this_cell.alive {
            Cell { alive: contains_u32(&rule.survive, sum), state: rule.state }
        } else if contains_u32(&rule.birth, sum) {
            Cell { alive: true, state: rule.state }
        } else {
            Cell {
                alive: false,
                state: if this_cell.state == 0 {
                    0
                } else {
                    this_cell.state - 1
                },
            }
        };
        proof {
            assert(new_cell == next_cells(*grid, *rule)[index as int]);
        }
        cells.push(new_cell);
        index = index + 1;
    }
    proof {
        assert(cells@ =~= next_cells(*grid, *rule));
    }
    Grid { x_len: grid.x_len, y_len: grid.y_len, z_len: grid.z_len, cells }
}

/// Stepping is deterministic: two step results computed from the same grid
/// and rule are identical, dimensions and cells alike.
pub proof fn lemma_step_deterministic(grid: Grid, rule: Rule, first: Grid, second: Grid)
    requires
        is_step_result(grid, rule, first),
        is_step_result(grid, rule, second),
    ensures
        first.x_len == second.x_len,
        first.y_len == second.y_len,
        first.z_len == second.z_len,
        first.cells@ == second.cells@,
{
}

/// A cell whose live-neighbor count is in both the survive and the birth set
/// is alive with the rule's state after a step, whatever its prior status.
pub proof fn lemma_alive_after_step(grid: Grid, rule: Rule, next: Grid, index: int)
    requires
        is_step_result(grid, rule, next),
        0 <= index < grid.cells@.len(),
        rule.survive@.contains(neighbor_count(grid, rule.neighbourhood, index) as u32),
        rule.birth@.contains(neighbor_count(grid, rule.neighbourhood, index) as u32),
    ensures
        next.cells@[index] == (Cell { alive: true, state: rule.state }),
{
}

/// A dead cell whose live-neighbor count is not in the birth set stays dead
/// and its counter decays by one, saturating at zero.
pub proof fn lemma_dead_cell_decays(grid: Grid, rule: Rule, next: Grid, index: int)
    requires
        is_step_result(grid, rule, next),
        0 <= index < grid.cells@.len(),
        !grid.cells@[index].alive,
        !rule.birth@.contains(neighbor_count(grid, rule.neighbourhood, index) as u32),
    ensures
        next.cells@[index] == (Cell { alive: false, state: decayed(grid.cells@[index].state) }),
        grid.cells@[index].state == 0 ==> next.cells@[index].state == 0,
        grid.cells@[index].state > 0 ==> next.cells@[index].state == grid.cells@[index].state - 1,
{
}

} // verus!

