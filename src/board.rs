//! The board: a grid of cells with fixed dimensions, its queries, and the step
//! from one generation to the next.
use vstd::prelude::*;

use crate::rules::{live_at, next_cell, next_generation, next_row_of, rows_have_width};

verus! {

/// The state of one cell.
#[derive(Clone, Copy, Debug, PartialEq, Eq, Hash, PartialOrd, Ord, Structural)]
pub enum BoardState {
    Alive,
    Dead,
}

/// The thread-local generator of `rand`, carried through without looking inside.
#[verifier::external_type_specification]
#[verifier::external_body]
pub struct ExThreadRng(rand::rngs::ThreadRng);

/// Relies on rand::thread_rng: a handle on the thread-local generator; nothing
/// is claimed of its state.
pub assume_specification[ rand::thread_rng ]() -> rand::rngs::ThreadRng;

/// Relies on rand::Rng::gen_range on a half-open range: the value lies in
/// `0..2` (gen_range panics only on an empty range).
#[verifier::external_body]
fn gen_below_two(rng: &mut rand::rngs::ThreadRng) -> (r: u32)
    ensures
        r < 2,
{
    rand::Rng::gen_range(rng, 0..2u32)
}

impl BoardState {
    /// The state that a draw from `0..2` stands for: zero is alive, anything
    /// else dead.
    pub fn from_draw(d: u32) -> (r: BoardState)
        ensures
            r == (if d == 0 {
                BoardState::Alive
            } else {
                BoardState::Dead
            }),
    {
        if d == 0 {
            BoardState::Alive
        } else {
            BoardState::Dead
        }
    }

    /// Alive or dead, each with even odds.
    pub fn random() -> (r: BoardState) {
        let mut rng = rand::thread_rng();
        let d = gen_below_two(&mut rng);
        BoardState::from_draw(d)
    }
}


/// A grid of `height` rows of `width` cells each, stored row by row.
#[derive(Debug)]
pub struct Board {
    grid: Vec<Vec<BoardState>>,
    width: usize,
    height: usize,
}

impl View for Board {
    type V = Seq<Seq<BoardState>>;

    /// The rows of the board, top to bottom; each row left to right.
    closed spec fn view(&self) -> Seq<Seq<BoardState>> {
        self.grid@.map_values(|r: Vec<BoardState>| r@)
    }
}

impl Board {
    /// There are `height` rows, and each holds `width` cells.
    #[verifier::type_invariant]
    spec fn shaped(self) -> bool {
        &&& self.grid@.len() == self.height
        &&& forall|y: int| 0 <= y < self.grid@.len() ==> #[trigger] self.grid@[y]@.len() == self.width
    }

    /// The number of columns, fixed when the board is made.
    pub closed spec fn width(&self) -> nat {
        self.width as nat
    }

    /// The number of rows, fixed when the board is made.
    pub closed spec fn height(&self) -> nat {
        self.height as nat
    }

    /// The view holds `height` rows of `width` cells each.
    proof fn lemma_shape(&self)
        requires
            self.shaped(),
        ensures
            self@.len() == self.height(),
            rows_have_width(self@, self.width()),
            self.width() <= usize::MAX,
            self.height() <= usize::MAX,
    {
        assert forall|y: int| 0 <= y < self@.len() implies #[trigger] self@[y].len() == self.width() by {
            assert(self.grid@[y]@.len() == self.width);
        }
    }

    /// The cell at column `x`, row `y`, or nothing off the grid.
    pub open spec fn cell(&self, x: int, y: int) -> Option<BoardState> {
        if 0 <= x < self.width() && 0 <= y < self.height() {
            Some(self@[y][x])
        } else {
            None
        }
    }

    /// Column `x`, top to bottom.
    pub open spec fn column(&self, x: int) -> Seq<BoardState> {
        Seq::new(self.height(), |y: int| self@[y][x])
    }

    /// A board of `height` rows of `width` cells, each cell drawn alive or
    /// dead at random. Either dimension may be zero, which gives a board
    /// without cells.
    pub fn new(width: usize, height: usize) -> (b: Board)
        ensures
            b.width() == width,
            b.height() == height,
    {
        let mut grid: Vec<Vec<BoardState>> = Vec::with_capacity(height);
        let mut y: usize = 0;
        while y < height
            invariant
                y <= height,
                grid@.len() == y,
                forall|i: int| 0 <= i < y ==> #[trigger] grid@[i]@.len() == width,
            decreases height - y,
        {
            let mut row: Vec<BoardState> = Vec::with_capacity(width);
            let mut x: usize = 0;
            while x < width
                invariant
                    x <= width,
                    row@.len() == x,
                decreases width - x,
            {
                row.push(BoardState::random());
                x = x + 1;
            }
            grid.push(row);
            y = y + 1;
        }
        Board { grid, width, height }
    }

    /// A board of the given rows, top to bottom; `None` unless there are
    /// `height` rows and each holds `width` cells.
    pub fn from_rows(width: usize, height: usize, rows: Vec<Vec<BoardState>>) -> (r: Option<Board>)
        ensures
            r is Some <==> rows@.len() == height && forall|y: int|
                0 <= y < rows@.len() ==> #[trigger] rows@[y]@.len() == width,
            r matches Some(b) ==> {
                &&& b.width() == width
                &&& b.height() == height
                &&& b@ == rows@.map_values(|row: Vec<BoardState>| row@)
            },
    {
        if rows.len() != height {
            return None;
        }
        let mut y: usize = 0;
        while y < height
            invariant
                y <= height,
                rows@.len() == height,
                forall|i: int| 0 <= i < y ==> #[trigger] rows@[i]@.len() == width,
            decreases height - y,
        {
            if rows[y].len() != width {
                return None;
            }
            y = y + 1;
        }
        Some(Board { grid: rows, width, height })
    }

    /// The number of columns.
    pub fn get_width(&self) -> (r: usize)
        ensures
            r == self.width(),
    {
        self.width
    }

    /// The number of rows.
    pub fn get_height(&self) -> (r: usize)
        ensures
            r == self.height(),
    {
        self.height
    }

    /// The cell at column `x`, row `y`; `None` when either lies outside the
    /// board.
    pub fn get(&self, x: usize, y: usize) -> (r: Option<BoardState>)
        ensures
            r == self.cell(x as int, y as int),
            x >= self.width() || y >= self.height() ==> r is None,
    {
        proof {
            use_type_invariant(self);
            self.lemma_shape();
        }
        if x >= self.width {
            return None;
        }
        if y >= self.height {
            return None;
        }
        Some(self.grid[y][x])
    }

    /// Row `y`, left to right; empty when `y` lies below the board.
    pub fn get_row(&self, y: usize) -> (r: Vec<BoardState>)
        ensures
            y < self.height() ==> r@ == self@[y as int],
            y >= self.height() ==> r@.len() == 0,
    {
        proof {
            use_type_invariant(self);
            self.lemma_shape();
        }
        if y >= self.height {
            return Vec::new();
        }
        self.grid[y].clone()
    }

    /// Column `x`, top to bottom; empty when `x` lies right of the board.
    pub fn get_col(&self, x: usize) -> (r: Vec<BoardState>)
        ensures
            x < self.width() ==> r@ == self.column(x as int),
            x >= self.width() ==> r@.len() == 0,
    {
        proof {
            use_type_invariant(self);
            self.lemma_shape();
        }
        if x >= self.width {
            return Vec::new();
        }
        let mut col: Vec<BoardState> = Vec::with_capacity(self.height);
        let mut y: usize = 0;
        while y < self.height
            invariant
                x < self.width(),
                y <= self.height(),
                col@ == self.column(x as int).take(y as int),
            decreases self.height() - y,
        {
            let c = self.get(x, y);
            col.push(c.unwrap());
            y = y + 1;
            assert(col@ =~= self.column(x as int).take(y as int));
        }
        assert(col@ =~= self.column(x as int));
        col
    }
}


/// One when the cell at offset `(dx, dy)` from `(x, y)` is on the board and
/// alive; zero otherwise, a position off the board counting as dead.
fn neighbor_live(board: &Board, x: usize, y: usize, dx: i8, dy: i8) -> (r: u32)
    requires
        -1 <= dx <= 1,
        -1 <= dy <= 1,
        x < board.width(),
        y < board.height(),
    ensures
        r == live_at(board@, x + dx, y + dy),
{
    proof {
        use_type_invariant(board);
        board.lemma_shape();
    }
    if (dx < 0 && x == 0) || (dy < 0 && y == 0) {
        return 0;
    }
    let nx: usize = if dx < 0 {
        x - 1
    } else if dx == 0 {
        x
    } else {
        x + 1
    };
    let ny: usize = if dy < 0 {
        y - 1
    } else if dy == 0 {
        y
    } else {
        y + 1
    };
    match board.get(nx, ny) {
        Some(BoardState::Alive) => 1,
        _ => 0,
    }
}

/// The state of cell `(x, y)` in the next generation of `board`, by the rule
/// over its eight neighbours. A position off the board has no next state and
/// gives `Dead`.
fn new_value(x: usize, y: usize, board: &Board) -> (r: BoardState)
    ensures
        r == (if x < board.width() && y < board.height() {
            next_cell(board@, x as int, y as int)
        } else {
            BoardState::Dead
        }),
{
    let current = match board.get(x, y) {
        None => {
            return BoardState::Dead;
        },
        Some(c) => c,
    };
    let alive: u32 = neighbor_live(board, x, y, -1, -1) + neighbor_live(board, x, y, 0, -1)
        + neighbor_live(board, x, y, 1, -1) + neighbor_live(board, x, y, -1, 0)
        + neighbor_live(board, x, y, 1, 0) + neighbor_live(board, x, y, -1, 1)
        + neighbor_live(board, x, y, 0, 1) + neighbor_live(board, x, y, 1, 1);
    if alive == 3 || (current == BoardState::Alive && alive == 2) {
        BoardState::Alive
    } else {
        BoardState::Dead
    }
}

impl Board {
    /// Row `y` of the next generation, computed from this board alone.
    pub fn next_row(&self, y: usize) -> (r: Vec<BoardState>)
        requires
            y < self.height(),
        ensures
            r@ == next_row_of(self@, y as int),
    {
        proof {
            use_type_invariant(self);
            self.lemma_shape();
        }
        let mut row: Vec<BoardState> = Vec::with_capacity(self.width);
        let mut x: usize = 0;
        while x < self.width
            invariant
                y < self.height(),
                x <= self.width(),
                self@[y as int].len() == self.width(),
                row@ == next_row_of(self@, y as int).take(x as int),
            decreases self.width() - x,
        {
            row.push(new_value(x, y, self));
            x = x + 1;
            assert(row@ =~= next_row_of(self@, y as int).take(x as int));
        }
        assert(row@ =~= next_row_of(self@, y as int));
        row
    }

    /// Advances the board by one generation. Every cell of the new grid is
    /// computed from the grid as it stood before the call, and the new grid
    /// replaces the old one whole.
    pub fn update(&mut self)
        ensures
            final(self)@ == next_generation(old(self)@),
            final(self).width() == old(self).width(),
            final(self).height() == old(self).height(),
    {
        proof {
            use_type_invariant(&*self);
            self.lemma_shape();
        }
        let mut grid: Vec<Vec<BoardState>> = Vec::with_capacity(self.height);
        let mut y: usize = 0;
        while y < self.height
            invariant
                y <= self.height(),
                self@.len() == self.height(),
                rows_have_width(self@, self.width()),
                grid@.len() == y,
                forall|i: int| 0 <= i < y ==> #[trigger] grid@[i]@ == next_row_of(self@, i),
            decreases self.height() - y,
        {
            grid.push(self.next_row(y));
            y = y + 1;
        }
        let next = Board { grid, width: self.width, height: self.height };
        assert(next@ =~= next_generation(self@));
        *self = next;
    }
}

/// Two boards that start from the same grid and are each updated twice end on
/// the same grid: a generation depends on the one before it and on nothing
/// else.
pub proof fn lemma_updates_deterministic(a0: Board, a1: Board, a2: Board, b0: Board, b1: Board, b2: Board)
    requires
        a0@ == b0@,
        a1@ == next_generation(a0@),
        a2@ == next_generation(a1@),
        b1@ == next_generation(b0@),
        b2@ == next_generation(b1@),
    ensures
        a2@ == b2@,
{
}

impl PartialEq for Board {
    /// Equal dimensions and equal cells.
    fn eq(&self, other: &Board) -> (r: bool)
        ensures
            r == (self.width() == other.width() && self.height() == other.height() && self@ == other@),
    {
        proof {
            use_type_invariant(self);
            use_type_invariant(other);
            self.lemma_shape();
            other.lemma_shape();
        }
        if self.width != other.width || self.height != other.height {
            return false;
        }
        let mut y: usize = 0;
        while y < self.height
            invariant
                self.shaped(),
                other.shaped(),
                self.width() == other.width(),
                self.height() == other.height(),
                y <= self.height(),
                self@.len() == self.height(),
                other@.len() == other.height(),
                rows_have_width(self@, self.width()),
                rows_have_width(other@, other.width()),
                forall|i: int| 0 <= i < y ==> #[trigger] self@[i] == other@[i],
            decreases self.height() - y,
        {
            assert(other.grid@[y as int]@.len() == other.width);
            let mut x: usize = 0;
            while x < self.width
                invariant
                    y < self.height(),
                    self.shaped(),
                    other.shaped(),
                    self.width() == other.width(),
                    self.height() == other.height(),
                    self.grid@[y as int]@.len() == self.width(),
                    other.grid@[y as int]@.len() == self.width(),
                    x <= self.width(),
                    forall|j: int| 0 <= j < x ==> #[trigger] self@[y as int][j] == other@[y as int][j],
                decreases self.width() - x,
            {
                if self.grid[y][x] != other.grid[y][x] {
                    assert(self@[y as int][x as int] != other@[y as int][x as int]);
                    return false;
                }
                x = x + 1;
            }
            assert(self@[y as int] =~= other@[y as int]);
            y = y + 1;
        }
        assert(self@ =~= other@);
        true
    }
}

impl vstd::std_specs::cmp::PartialEqSpecImpl for Board {
    open spec fn obeys_eq_spec() -> bool {
        true
    }

    open spec fn eq_spec(&self, other: &Board) -> bool {
        self.width() == other.width() && self.height() == other.height() && self@ == other@
    }
}

impl Clone for Board {
    fn clone(&self) -> (r: Board)
        ensures
            r@ == self@,
            r.width() == self.width(),
            r.height() == self.height(),
    {
        proof {
            use_type_invariant(self);
            self.lemma_shape();
        }
        let mut grid: Vec<Vec<BoardState>> = Vec::with_capacity(self.height);
        let mut y: usize = 0;
        while y < self.height
            invariant
                y <= self.height(),
                self@.len() == self.height(),
                grid@.len() == y,
                forall|i: int| 0 <= i < y ==> #[trigger] grid@[i]@ == self@[i],
            decreases self.height() - y,
        {
            grid.push(self.grid[y].clone());
            y = y + 1;
        }
        let r = Board { grid, width: self.width, height: self.height };
        assert(r@ =~= self@);
        r
    }
}

} // verus!
