//! The Game of Life rule as mathematics: cells, neighbour counts and the next
//! generation of a grid given as a sequence of rows.
use vstd::prelude::*;

use crate::board::BoardState;

verus! {

/// The cell at column `x`, row `y` is on the grid and alive. A position off the
/// grid is never alive.
pub open spec fn alive_at(g: Seq<Seq<BoardState>>, x: int, y: int) -> bool {
    &&& 0 <= y < g.len()
    &&& 0 <= x < g[y].len()
    &&& g[y][x] == BoardState::Alive
}

/// One for a live cell at `(x, y)`, zero otherwise.
pub open spec fn live_at(g: Seq<Seq<BoardState>>, x: int, y: int) -> int {
    if alive_at(g, x, y) {
        1
    } else {
        0
    }
}

/// How many of the eight cells around `(x, y)` are alive.
pub open spec fn live_neighbors(g: Seq<Seq<BoardState>>, x: int, y: int) -> int {
    live_at(g, x - 1, y - 1) + live_at(g, x, y - 1) + live_at(g, x + 1, y - 1)
        + live_at(g, x - 1, y) + live_at(g, x + 1, y)
        + live_at(g, x - 1, y + 1) + live_at(g, x, y + 1) + live_at(g, x + 1, y + 1)
}

/// A cell lives in the next generation when it has exactly three live
/// neighbours, or when it is alive and has exactly two.
pub open spec fn next_state(current: BoardState, neighbors: int) -> BoardState {
    if neighbors == 3 || (current == BoardState::Alive && neighbors == 2) {
        BoardState::Alive
    } else {
        BoardState::Dead
    }
}

/// The state of cell `(x, y)` in the generation after `g`.
pub open spec fn next_cell(g: Seq<Seq<BoardState>>, x: int, y: int) -> BoardState {
    next_state(g[y][x], live_neighbors(g, x, y))
}

/// Row `y` of the generation after `g`.
pub open spec fn next_row_of(g: Seq<Seq<BoardState>>, y: int) -> Seq<BoardState> {
    Seq::new(g[y].len(), |x: int| next_cell(g, x, y))
}

/// The generation after `g`: every cell computed from `g` alone.
pub open spec fn next_generation(g: Seq<Seq<BoardState>>) -> Seq<Seq<BoardState>> {
    Seq::new(g.len(), |y: int| next_row_of(g, y))
}

/// Every row of `g` holds `width` cells.
pub open spec fn rows_have_width(g: Seq<Seq<BoardState>>, width: nat) -> bool {
    forall|y: int| 0 <= y < g.len() ==> #[trigger] g[y].len() == width
}


/// The next generation has as many rows as `g`, each as long as in `g`.
pub proof fn lemma_next_generation_shape(g: Seq<Seq<BoardState>>, width: nat)
    requires
        rows_have_width(g, width),
    ensures
        next_generation(g).len() == g.len(),
        rows_have_width(next_generation(g), width),
{
}

/// Every cell of `g`, a grid of rows of `width` cells, is alive.
pub open spec fn all_alive(g: Seq<Seq<BoardState>>, width: nat) -> bool {
    forall|x: int, y: int| 0 <= y < g.len() && 0 <= x < width ==> #[trigger] g[y][x] == BoardState::Alive
}

/// On a grid that is alive everywhere, with at least two rows and two columns,
/// the neighbours off the grid count as dead: each corner, with three live
/// neighbours, stays alive; each other cell of the border, with five, dies.
pub proof fn lemma_all_alive_border(g: Seq<Seq<BoardState>>, width: nat)
    requires
        rows_have_width(g, width),
        width >= 2,
        g.len() >= 2,
        all_alive(g, width),
    ensures
        ({
            let n = next_generation(g);
            let right = width - 1;
            let bottom = g.len() - 1;
            &&& n[0][0] == BoardState::Alive
            &&& n[0][right] == BoardState::Alive
            &&& n[bottom][0] == BoardState::Alive
            &&& n[bottom][right] == BoardState::Alive
            &&& forall|x: int| 0 < x < right ==> #[trigger] n[0][x] == BoardState::Dead
            &&& forall|x: int| 0 < x < right ==> #[trigger] n[bottom][x] == BoardState::Dead
            &&& forall|y: int| 0 < y < bottom ==> #[trigger] n[y][0] == BoardState::Dead
            &&& forall|y: int| 0 < y < bottom ==> #[trigger] n[y][right] == BoardState::Dead
        }),
{
    let right = width - 1;
    let bottom = g.len() - 1;
    assert forall|x: int, y: int| #[trigger] alive_at(g, x, y) <==> (0 <= x <= right && 0 <= y <= bottom) by {
        if 0 <= y < g.len() {
            assert(g[y].len() == width);
        }
        if 0 <= x <= right && 0 <= y <= bottom {
            assert(g[y][x] == BoardState::Alive);
        }
    }
}

/// The only live cells of `g` are the two-by-two block whose top-left cell is
/// `(bx, by)`.
pub open spec fn only_block_alive(g: Seq<Seq<BoardState>>, width: nat, bx: int, by: int) -> bool {
    forall|x: int, y: int|
        0 <= y < g.len() && 0 <= x < width ==> (#[trigger] g[y][x] == BoardState::Alive <==> (bx
            <= x <= bx + 1 && by <= y <= by + 1))
}

/// A two-by-two block of live cells, with no other live cell on the grid, is a
/// still life: the next generation equals the grid, wherever the block lies.
pub proof fn lemma_block_still_life(g: Seq<Seq<BoardState>>, width: nat, bx: int, by: int)
    requires
        rows_have_width(g, width),
        0 <= bx,
        bx + 1 < width,
        0 <= by,
        by + 1 < g.len(),
        only_block_alive(g, width, bx, by),
    ensures
        next_generation(g) == g,
{
    assert forall|x: int, y: int| #[trigger] alive_at(g, x, y) <==> (bx <= x <= bx + 1 && by <= y <= by + 1) by {
        if 0 <= y < g.len() {
            assert(g[y].len() == width);
            if 0 <= x < width {
                assert(g[y][x] == BoardState::Alive <==> (bx <= x <= bx + 1 && by <= y <= by + 1));
            }
        }
    }
    assert forall|y: int| 0 <= y < g.len() implies #[trigger] next_generation(g)[y] == g[y] by {
        assert(g[y].len() == width);
        assert forall|x: int| 0 <= x < width implies #[trigger] next_row_of(g, y)[x] == g[y][x] by {
            assert(g[y][x] == BoardState::Alive <==> (bx <= x <= bx + 1 && by <= y <= by + 1));
        }
        assert(next_row_of(g, y) =~= g[y]);
    }
    assert(next_generation(g) =~= g);
}

} // verus!
