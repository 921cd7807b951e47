//! General facts about boards and generations.
//!
//! Each function here is a theorem: its `requires` names the boards and
//! points it speaks of, its `ensures` is the statement.
use crate::cell::conway_rule;
use crate::generation::Generation;
use crate::grid::Grid;
use vstd::prelude::*;

verus! {

/// A board holds exactly `width * height` cells.
pub proof fn law_cell_count(grid: Grid)
    requires
        grid.wf(),
    ensures
        grid.cells_view().len() == grid@.width * grid@.height,
{
}

/// A step changes neither the extent of a generation nor the number of its
/// cells.
pub proof fn law_step_keeps_extent(generation: Generation)
    requires
        generation.wf(),
    ensures
        generation.step().wf(),
        generation.step().width == generation.width,
        generation.step().height == generation.height,
        generation.step().alive.len() == generation.alive.len(),
{
}

/// Going from a point on the board to its position and back gives the
/// point.
pub proof fn law_point_round_trip(generation: Generation, x: int, y: int)
    requires
        generation.wf(),
        generation.in_range(x, y),
    ensures
        0 <= generation.index_of(x, y) < generation.width * generation.height,
        generation.column_of(generation.index_of(x, y)) == x,
        generation.row_of(generation.index_of(x, y)) == y,
{
    generation.lemma_index_of_in_range(x, y);
}

/// Going from a position on the board to its point and back gives the
/// position.
pub proof fn law_index_round_trip(generation: Generation, i: int)
    requires
        generation.wf(),
        0 <= i < generation.width * generation.height,
    ensures
        generation.in_range(generation.column_of(i), generation.row_of(i)),
        generation.index_of(generation.column_of(i), generation.row_of(i)) == i,
{
    generation.lemma_position_in_range(i);
}

/// Among any points, no more are alive than there are, and as many are
/// alive as there are exactly when each of them is.
pub proof fn law_count_alive_bound(generation: Generation, points: Seq<(int, int)>)
    ensures
        generation.count_alive(points) <= points.len(),
        generation.count_alive(points) == points.len() <==> forall|j: int|
            0 <= j < points.len() ==> generation.alive_at(
                (#[trigger] points[j]).0,
                points[j].1,
            ),
    decreases points.len(),
{
    if points.len() > 0 {
        law_count_alive_bound(generation, points.drop_last());
        let front = points.drop_last();
        if generation.count_alive(points) == points.len() {
            assert forall|j: int| 0 <= j < points.len() implies generation.alive_at(
                (#[trigger] points[j]).0,
                points[j].1,
            ) by {
                if j < front.len() {
                    assert(front[j] == points[j]);
                }
            }
        }
        if forall|j: int|
            0 <= j < points.len() ==> generation.alive_at((#[trigger] points[j]).0, points[j].1) {
            assert forall|j: int| 0 <= j < front.len() implies generation.alive_at(
                (#[trigger] front[j]).0,
                front[j].1,
            ) by {
                assert(front[j] == points[j]);
            }
            assert(generation.alive_at(points.last().0, points.last().1));
        }
    }
}

/// The number of live neighbours of a point is at most eight, at most the
/// size of its neighbourhood, and equal to that size exactly when every
/// cell of the neighbourhood is alive.
pub proof fn law_alive_neighbours_bound(generation: Generation, x: int, y: int)
    ensures
        generation.alive_neighbours(x, y) <= 8,
        generation.alive_neighbours(x, y) <= generation.neighbours(x, y).len(),
        generation.alive_neighbours(x, y) == generation.neighbours(x, y).len() <==> forall|j: int|
            0 <= j < generation.neighbours(x, y).len() ==> generation.alive_at(
                (#[trigger] generation.neighbours(x, y)[j]).0,
                generation.neighbours(x, y)[j].1,
            ),
{
    generation.lemma_alive_neighbours_counts_neighbourhood(x, y);
    law_count_alive_bound(generation, generation.neighbours(x, y));
}

/// Whether `(x, y)` is one of the four corners of the board.
pub open spec fn is_corner(generation: Generation, x: int, y: int) -> bool {
    &&& x == 0 || x == generation.width - 1
    &&& y == 0 || y == generation.height - 1
}

/// On a board of at least two columns and two rows a corner has exactly
/// three neighbours, and it has three live neighbours exactly when all three
/// are alive.
pub proof fn law_corner_neighbours(generation: Generation, x: int, y: int)
    requires
        generation.wf(),
        generation.width >= 2,
        generation.height >= 2,
        is_corner(generation, x, y),
    ensures
        generation.neighbours(x, y).len() == 3,
        generation.alive_neighbours(x, y) <= 3,
        generation.alive_neighbours(x, y) == 3 <==> forall|j: int|
            0 <= j < 3 ==> generation.alive_at(
                (#[trigger] generation.neighbours(x, y)[j]).0,
                generation.neighbours(x, y)[j].1,
            ),
{
    reveal_with_fuel(Generation::neighbours_among, 10);
    assert(generation.neighbours(x, y).len() == 3);
    law_alive_neighbours_bound(generation, x, y);
}

/// A board is determined by the generation it shows: two boards that show
/// the same generation hold the same cells.
pub proof fn law_generation_determines_cells(a: Grid, b: Grid)
    requires
        a.wf(),
        b.wf(),
        a@ == b@,
    ensures
        a.cells_view() == b.cells_view(),
{
    assert(a.cells_view() =~= b.cells_view());
}

/// The step is a function of the generation alone: boards that show the
/// same generation show the same generation after one update each, and
/// hold the same cells.
pub proof fn law_update_is_deterministic(a: Grid, b: Grid, a_next: Grid, b_next: Grid)
    requires
        a.wf(),
        b.wf(),
        a@ == b@,
        a_next.wf(),
        b_next.wf(),
        a_next@ == a@.step(),
        b_next@ == b@.step(),
    ensures
        a_next@ == b_next@,
        a_next.cells_view() == b_next.cells_view(),
{
    law_generation_determines_cells(a_next, b_next);
}

/// The cell that a board holds at a position carries the coordinates of
/// that position, so an update, which keeps the extent, moves no cell.
pub proof fn law_update_keeps_coordinates(before: Grid, after: Grid, i: int)
    requires
        before.wf(),
        after.wf(),
        after@ == before@.step(),
        0 <= i < before.cells_view().len(),
    ensures
        after.cells_view().len() == before.cells_view().len(),
        after.cells_view()[i].x == before.cells_view()[i].x,
        after.cells_view()[i].y == before.cells_view()[i].y,
{
}

/// A board without live cells stays as it is.
pub proof fn law_empty_board_is_still(generation: Generation)
    requires
        generation.wf(),
        forall|i: int| 0 <= i < generation.alive.len() ==> !generation.alive[i],
    ensures
        generation.step() == generation,
{
    assert forall|i: int| 0 <= i < generation.alive.len() implies generation.next_alive(i)
        == generation.alive[i] by {
        let x = generation.column_of(i);
        let y = generation.row_of(i);
        assert forall|u: int, v: int| !generation.alive_at(u, v) by {
            if generation.in_range(u, v) {
                generation.lemma_index_of_in_range(u, v);
            }
        }
    }
    assert(generation.step().alive =~= generation.alive);
}

/// The step, told point by point: a cell on the board is alive in the next
/// generation exactly when the rule says so of its present liveness and the
/// present number of its live neighbours.
pub proof fn law_step_pointwise(generation: Generation, x: int, y: int)
    requires
        generation.wf(),
    ensures
        generation.step().alive_at(x, y) == (generation.in_range(x, y) && conway_rule(
            generation.alive_at(x, y),
            generation.alive_neighbours(x, y),
        )),
{
    if generation.in_range(x, y) {
        generation.lemma_index_of_in_range(x, y);
    }
}

/// Two generations of the same extent that agree on the liveness of every
/// point are the same generation.
pub proof fn law_generation_extensional(a: Generation, b: Generation)
    requires
        a.wf(),
        b.wf(),
        a.width == b.width,
        a.height == b.height,
        forall|x: int, y: int| a.in_range(x, y) ==> #[trigger] a.alive_at(x, y) == b.alive_at(x, y),
    ensures
        a == b,
{
    assert forall|i: int| 0 <= i < a.alive.len() implies a.alive[i] == b.alive[i] by {
        a.lemma_position_in_range(i);
        let x = a.column_of(i);
        let y = a.row_of(i);
        assert(a.alive_at(x, y) == b.alive_at(x, y));
    }
    assert(a.alive =~= b.alive);
}

/// Whether `(x, y)` belongs to the block of two by two cells whose least
/// corner is `(bx, by)`.
pub open spec fn in_block(bx: int, by: int, x: int, y: int) -> bool {
    bx <= x <= bx + 1 && by <= y <= by + 1
}

/// The block is a still life: a board on which exactly the four cells of a
/// block are alive stays as it is, wherever on the board the block lies.
pub proof fn law_block_is_still(generation: Generation, bx: int, by: int)
    requires
        generation.wf(),
        generation.in_range(bx, by),
        generation.in_range(bx + 1, by + 1),
        forall|x: int, y: int|
            generation.in_range(x, y) ==> #[trigger] generation.alive_at(x, y) == in_block(
                bx,
                by,
                x,
                y,
            ),
    ensures
        generation.step() == generation,
{
    let next = generation.step();
    assert forall|x: int, y: int| #[trigger] generation.alive_at(x, y) == in_block(bx, by, x, y) by {
        if generation.in_range(x, y) {
        }
    }
    assert forall|x: int, y: int| next.in_range(x, y) implies next.alive_at(x, y)
        == generation.alive_at(x, y) by {
        law_step_pointwise(generation, x, y);
    }
    law_generation_extensional(next, generation);
}

/// Whether `(x, y)` belongs to the row of three cells centred at
/// `(cx, cy)`.
pub open spec fn in_row_of_three(cx: int, cy: int, x: int, y: int) -> bool {
    cx - 1 <= x <= cx + 1 && y == cy
}

/// Whether `(x, y)` belongs to the column of three cells centred at
/// `(cx, cy)`.
pub open spec fn in_column_of_three(cx: int, cy: int, x: int, y: int) -> bool {
    x == cx && cy - 1 <= y <= cy + 1
}

/// One step turns a row of three live cells into the column of three
/// through the same centre, provided the board has room for both.
pub proof fn law_blinker_turns(generation: Generation, cx: int, cy: int)
    requires
        generation.wf(),
        generation.in_range(cx - 1, cy - 1),
        generation.in_range(cx + 1, cy + 1),
        forall|x: int, y: int|
            generation.in_range(x, y) ==> #[trigger] generation.alive_at(x, y) == in_row_of_three(
                cx,
                cy,
                x,
                y,
            ),
    ensures
        forall|x: int, y: int|
            generation.in_range(x, y) ==> #[trigger] generation.step().alive_at(x, y)
                == in_column_of_three(
                cx,
                cy,
                x,
                y,
            ),
{
    let next = generation.step();
    assert forall|x: int, y: int| #[trigger] generation.alive_at(x, y) == in_row_of_three(
        cx,
        cy,
        x,
        y,
    ) by {
        if generation.in_range(x, y) {
        }
    }
    assert forall|x: int, y: int| generation.in_range(x, y) implies next.alive_at(x, y)
        == in_column_of_three(cx, cy, x, y) by {
        law_step_pointwise(generation, x, y);
    }
}

/// One step turns a column of three live cells into the row of three
/// through the same centre, provided the board has room for both.
pub proof fn law_blinker_turns_back(generation: Generation, cx: int, cy: int)
    requires
        generation.wf(),
        generation.in_range(cx - 1, cy - 1),
        generation.in_range(cx + 1, cy + 1),
        forall|x: int, y: int|
            generation.in_range(x, y) ==> #[trigger] generation.alive_at(x, y) == in_column_of_three(
                cx,
                cy,
                x,
                y,
            ),
    ensures
        forall|x: int, y: int|
            generation.in_range(x, y) ==> #[trigger] generation.step().alive_at(x, y)
                == in_row_of_three(
                cx,
                cy,
                x,
                y,
            ),
{
    let next = generation.step();
    assert forall|x: int, y: int| #[trigger] generation.alive_at(x, y) == in_column_of_three(
        cx,
        cy,
        x,
        y,
    ) by {
        if generation.in_range(x, y) {
        }
    }
    assert forall|x: int, y: int| generation.in_range(x, y) implies next.alive_at(x, y)
        == in_row_of_three(cx, cy, x, y) by {
        law_step_pointwise(generation, x, y);
    }
}

/// The blinker is an oscillator of period two: a board on which exactly a
/// row of three cells is alive shows the same generation again after two
/// steps, and a different one after one.
pub proof fn law_blinker_has_period_two(generation: Generation, cx: int, cy: int)
    requires
        generation.wf(),
        generation.in_range(cx - 1, cy - 1),
        generation.in_range(cx + 1, cy + 1),
        forall|x: int, y: int|
            generation.in_range(x, y) ==> #[trigger] generation.alive_at(x, y) == in_row_of_three(
                cx,
                cy,
                x,
                y,
            ),
    ensures
        generation.steps(2) == generation,
        generation.steps(1) != generation,
{
    let once = generation.step();
    let twice = once.step();
    law_blinker_turns(generation, cx, cy);
    law_blinker_turns_back(once, cx, cy);
    assert forall|x: int, y: int| twice.in_range(x, y) implies twice.alive_at(x, y)
        == generation.alive_at(x, y) by {
        assert(once.in_range(x, y));
    }
    law_generation_extensional(twice, generation);
    reveal_with_fuel(Generation::steps, 3);
    assert(generation.steps(2) == twice);
    assert(generation.steps(1) == once);
    assert(once.alive_at(cx, cy - 1));
    assert(!generation.alive_at(cx, cy - 1));
}

} // verus!
