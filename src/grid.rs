use vstd::prelude::*;

verus! {

/// The state of one cell.
#[derive(Clone, Copy, Debug, PartialEq, Eq, Structural)]
pub enum Cell {
    Dead,
    Alive,
}

/// What a cell adds to a neighbour count: one when alive, zero when dead.
pub open spec fn live_value(c: Cell) -> nat {
    match c {
        Cell::Alive => 1,
        Cell::Dead => 0,
    }
}

/// The value of the cell at row `r`, column `c`, with both indices taken
/// modulo the grid's height and width.
pub open spec fn live_at(cells: Seq<Cell>, w: int, h: int, r: int, c: int) -> nat {
    live_value(cells[wrapped_index(w, h, r, c)])
}

/// The row-major index of row `r`, column `c` on a `w` by `h` torus.
pub open spec fn wrapped_index(w: int, h: int, r: int, c: int) -> int {
    (r % h) * w + (c % w)
}

/// The number of live cells among the eight toroidal neighbours of (`r`, `c`).
pub open spec fn neighbors(cells: Seq<Cell>, w: int, h: int, r: int, c: int) -> nat {
    live_at(cells, w, h, r - 1, c - 1) + live_at(cells, w, h, r - 1, c) + live_at(
        cells,
        w,
        h,
        r - 1,
        c + 1,
    ) + live_at(cells, w, h, r, c - 1) + live_at(cells, w, h, r, c + 1) + live_at(
        cells,
        w,
        h,
        r + 1,
        c - 1,
    ) + live_at(cells, w, h, r + 1, c) + live_at(cells, w, h, r + 1, c + 1)
}

/// The B3/S23 rule: the next state of a cell in state `c` with `n` live neighbours.
pub open spec fn next_state(c: Cell, n: nat) -> Cell {
    match c {
        Cell::Alive => if n == 2 || n == 3 {
            Cell::Alive
        } else {
            Cell::Dead
        },
        Cell::Dead => if n == 3 {
            Cell::Alive
        } else {
            Cell::Dead
        },
    }
}

/// The generation that follows `cells` on a `w` by `h` torus, every cell
/// computed from `cells` alone.
pub open spec fn next_generation(cells: Seq<Cell>, w: int, h: int) -> Seq<Cell> {
    Seq::new(cells.len(), |i: int| next_state(cells[i], neighbors(cells, w, h, i / w, i % w)))
}

/// The seed pattern: cell `i` is alive iff `i` is a multiple of `first` or of `second`.
pub open spec fn seed_pattern(n: nat, first: nat, second: nat) -> Seq<Cell> {
    Seq::new(
        n,
        |i: int|
            if i % (first as int) == 0 || i % (second as int) == 0 {
                Cell::Alive
            } else {
                Cell::Dead
            },
    )
}

/// A rectangular board of cells stored row by row.
pub struct Grid {
    pub width: u32,
    pub height: u32,
    pub cells: Vec<Cell>,
}

/// Sizes a grid can be built with: both sides positive, the cell count within `u32`.
pub open spec fn valid_size(width: u32, height: u32) -> bool {
    width > 0 && height > 0 && width * height <= u32::MAX
}

proof fn lemma_index_in_bounds(r: int, c: int, w: int, h: int)
    requires
        0 <= r < h,
        0 <= c < w,
    ensures
        0 <= r * w + c < w * h,
{
    assert(r * w + c < w * h) by (nonlinear_arith)
        requires
            0 <= r < h,
            0 <= c < w,
    ;
    assert(0 <= r * w) by (nonlinear_arith)
        requires
            0 <= r,
            0 <= c < w,
    ;
}

proof fn lemma_wrap(i: int, n: int)
    requires
        n > 0,
        -1 <= i <= n,
    ensures
        i % n == (if i == -1 {
            n - 1
        } else if i == n {
            0
        } else {
            i
        }),
{
    if i == -1 {
        vstd::arithmetic::div_mod::lemma_fundamental_div_mod_converse(i, n, -1, n - 1);
    } else if i == n {
        vstd::arithmetic::div_mod::lemma_fundamental_div_mod_converse(i, n, 1, 0);
    } else {
        vstd::arithmetic::div_mod::lemma_fundamental_div_mod_converse(i, n, 0, i);
    }
}

/// The periods of the fixed seed pattern.
pub const FIRST_PERIOD: u32 = 2;

pub const SECOND_PERIOD: u32 = 7;

/// Periods of a random seed are drawn from `1..PERIOD_BOUND`.
pub const PERIOD_BOUND: u32 = 10;

/// Relies on rand::thread_rng and rand::Rng::gen_range: a value drawn from
/// `low..high`, which must not be empty.
#[verifier::external_body]
fn random_in(low: u32, high: u32) -> (r: u32)
    requires
        low < high,
    ensures
        low <= r < high,
{
    rand::Rng::gen_range(&mut rand::thread_rng(), low..high)
}

/// The glyph that shows a cell in a text snapshot.
pub open spec fn glyph(c: Cell) -> char {
    match c {
        Cell::Alive => '\u{2593}',
        Cell::Dead => '\u{2591}',
    }
}

/// Row `r` of a snapshot: the glyphs of its `w` cells, then a line break.
pub open spec fn row_text(cells: Seq<Cell>, w: int, r: int) -> Seq<char> {
    Seq::new(w as nat, |c: int| glyph(cells[r * w + c])).push('\n')
}

/// The first `rows` rows of a snapshot, top to bottom.
pub open spec fn rows_text(cells: Seq<Cell>, w: int, rows: nat) -> Seq<char>
    decreases rows,
{
    if rows == 0 {
        Seq::empty()
    } else {
        rows_text(cells, w, (rows - 1) as nat) + row_text(cells, w, rows - 1)
    }
}

impl Grid {
    /// A `width` by `height` grid whose cell `i` is alive iff `i` is a multiple
    /// of `first` or of `second`.
    pub fn new(width: u32, height: u32, first: u32, second: u32) -> (r: Grid)
        requires
            valid_size(width, height),
            first > 0,
            second > 0,
        ensures
            r.wf(),
            r.width == width,
            r.height == height,
            r.cells@ == seed_pattern((width * height) as nat, first as nat, second as nat),
    {
        let n: u32 = width * height;
        let ghost target = seed_pattern(n as nat, first as nat, second as nat);
        let mut cells: Vec<Cell> = Vec::new();
        let mut i: u32 = 0;
        while i < n
            invariant
                i <= n,
                first > 0,
                second > 0,
                target == seed_pattern(n as nat, first as nat, second as nat),
                cells@.len() == i,
                forall|k: int| 0 <= k < i ==> cells@[k] == target[k],
            decreases n - i,
        {
            let cell = if i % first == 0 || i % second == 0 {
                Cell::Alive
            } else {
                Cell::Dead
            };
            cells.push(cell);
            i = i + 1;
        }
        proof {
            assert(cells@ =~= target);
        }
        Grid { width, height, cells }
    }

    /// A grid seeded with the fixed periods 2 and 7.
    pub fn fixed(width: u32, height: u32) -> (r: Grid)
        requires
            valid_size(width, height),
        ensures
            r.wf(),
            r.width == width,
            r.height == height,
            r.cells@ == seed_pattern(
                (width * height) as nat,
                FIRST_PERIOD as nat,
                SECOND_PERIOD as nat,
            ),
    {
        Grid::new(width, height, FIRST_PERIOD, SECOND_PERIOD)
    }

    /// A grid seeded with two periods drawn at random from `1..10`.
    pub fn random(width: u32, height: u32) -> (r: Grid)
        requires
            valid_size(width, height),
        ensures
            r.wf(),
            r.width == width,
            r.height == height,
            exists|first: nat, second: nat|
                1 <= first < PERIOD_BOUND && 1 <= second < PERIOD_BOUND && r.cells@
                    == #[trigger] seed_pattern((width * height) as nat, first, second),
    {
        let first = random_in(1, PERIOD_BOUND);
        let second = random_in(1, PERIOD_BOUND);
        let r = Grid::new(width, height, first, second);
        assert(r.cells@ == seed_pattern((width * height) as nat, first as nat, second as nat));
        r
    }

    /// The grid as text: one line per row, top to bottom, each cell shown by
    /// its glyph from left to right and each line ended by a line break.
    pub fn get_string(&self) -> (r: String)
        requires
            self.wf(),
        ensures
            r@ == rows_text(self.cells@, self.width as int, self.height as nat),
    {
        let w = self.width;
        let h = self.height;
        let mut s = String::new();
        let mut row: u32 = 0;
        while row < h
            invariant
                self.wf(),
                self.width == w,
                self.height == h,
                row <= h,
                s@ == rows_text(self.cells@, w as int, row as nat),
            decreases h - row,
        {
            let ghost before = s@;
            let mut col: u32 = 0;
            while col < w
                invariant
                    self.wf(),
                    self.width == w,
                    self.height == h,
                    row < h,
                    col <= w,
                    s@ == before + Seq::new(
                        col as nat,
                        |c: int| glyph(self.cells@[row * w + c]),
                    ),
                decreases w - col,
            {
                let idx = self.get_index(row, col);
                let ghost prev = s@;
                match self.cells[idx] {
                    Cell::Alive => s.append("\u{2593}"),
                    Cell::Dead => s.append("\u{2591}"),
                }
                proof {
                    reveal_strlit("\u{2593}");
                    reveal_strlit("\u{2591}");
                    assert(s@ =~= before + Seq::new(
                        (col + 1) as nat,
                        |c: int| glyph(self.cells@[row * w + c]),
                    ));
                }
                col = col + 1;
            }
            s.append("\n");
            proof {
                reveal_strlit("\n");
                assert(s@ =~= rows_text(self.cells@, w as int, (row + 1) as nat));
            }
            row = row + 1;
        }
        s
    }

    /// The sides are a valid size and there is one cell per position.
    pub open spec fn wf(&self) -> bool {
        &&& valid_size(self.width, self.height)
        &&& self.cells@.len() == self.width * self.height
    }

    /// The row-major index of (`row`, `column`).
    fn get_index(&self, row: u32, column: u32) -> (r: usize)
        requires
            self.wf(),
            row < self.height,
            column < self.width,
        ensures
            r == row * self.width + column,
            r < self.cells@.len(),
    {
        proof {
            lemma_index_in_bounds(row as int, column as int, self.width as int, self.height as int);
        }
        (row as usize) * (self.width as usize) + (column as usize)
    }

    fn live_value_at(&self, row: u32, column: u32) -> (r: u8)
        requires
            self.wf(),
            row < self.height,
            column < self.width,
        ensures
            r == live_value(self.cells@[row * self.width + column]),
    {
        let idx = self.get_index(row, column);
        match self.cells[idx] {
            Cell::Alive => 1,
            Cell::Dead => 0,
        }
    }

    /// The number of live cells among the eight neighbours of (`row`, `column`),
    /// wrapping around each edge to the opposite one.
    pub fn live_neighbor_count(&self, row: u32, column: u32) -> (r: u8)
        requires
            self.wf(),
            row < self.height,
            column < self.width,
        ensures
            r == neighbors(self.cells@, self.width as int, self.height as int, row as int, column as int),
            r <= 8,
    {
        let w = self.width;
        let h = self.height;
        let up: u32 = if row == 0 { h - 1 } else { row - 1 };
        let down: u32 = if row == h - 1 { 0 } else { row + 1 };
        let left: u32 = if column == 0 { w - 1 } else { column - 1 };
        let right: u32 = if column == w - 1 { 0 } else { column + 1 };
        proof {
            lemma_wrap(row - 1, h as int);
            lemma_wrap(row as int, h as int);
            lemma_wrap(row + 1, h as int);
            lemma_wrap(column - 1, w as int);
            lemma_wrap(column as int, w as int);
            lemma_wrap(column + 1, w as int);
        }
        let count = self.live_value_at(up, left) + self.live_value_at(up, column)
            + self.live_value_at(up, right) + self.live_value_at(row, left)
            + self.live_value_at(row, right) + self.live_value_at(down, left)
            + self.live_value_at(down, column) + self.live_value_at(down, right);
        count
    }

    /// Advances the grid by one generation. Every cell's next state is decided
    /// from the grid as it stood before the call.
    pub fn advance(&mut self)
        requires
            old(self).wf(),
        ensures
            final(self).wf(),
            final(self).width == old(self).width,
            final(self).height == old(self).height,
            final(self).cells@ == next_generation(
                old(self).cells@,
                old(self).width as int,
                old(self).height as int,
            ),
    {
        let w = self.width;
        let h = self.height;
        let ghost pre = self.cells@;
        let ghost target = next_generation(pre, w as int, h as int);
        let mut next: Vec<Cell> = Vec::new();
        let mut row: u32 = 0;
        while row < h
            invariant
                self.wf(),
                self.cells@ == pre,
                self.width == w,
                self.height == h,
                target == next_generation(pre, w as int, h as int),
                row <= h,
                next@.len() == row * w,
                forall|i: int| 0 <= i < next@.len() ==> next@[i] == target[i],
            decreases h - row,
        {
            let mut col: u32 = 0;
            while col < w
                invariant
                    self.wf(),
                    self.cells@ == pre,
                    self.width == w,
                    self.height == h,
                    target == next_generation(pre, w as int, h as int),
                    row < h,
                    col <= w,
                    next@.len() == row * w + col,
                    forall|i: int| 0 <= i < next@.len() ==> next@[i] == target[i],
                decreases w - col,
            {
                let idx = self.get_index(row, col);
                let cell = self.cells[idx];
                let n = self.live_neighbor_count(row, col);
                let next_cell = next_cell(cell, n);
                proof {
                    vstd::arithmetic::div_mod::lemma_fundamental_div_mod_converse(
                        idx as int,
                        w as int,
                        row as int,
                        col as int,
                    );
                }
                next.push(next_cell);
                col = col + 1;
            }
            proof {
                assert((row + 1) * w == row * w + w) by (nonlinear_arith);
            }
            row = row + 1;
        }
        proof {
            assert(row * w == w * h) by (nonlinear_arith)
                requires
                    row == h,
            ;
        }
        self.cells = next;
        proof {
            assert(self.cells@ =~= target);
        }
    }
}

/// The B3/S23 rule on one cell: `cell` with `live_neighbors` live neighbours.
pub fn next_cell(cell: Cell, live_neighbors: u8) -> (r: Cell)
    ensures
        r == next_state(cell, live_neighbors as nat),
{
    match cell {
        Cell::Alive => if live_neighbors < 2 {
            Cell::Dead
        } else if live_neighbors <= 3 {
            Cell::Alive
        } else {
            Cell::Dead
        },
        Cell::Dead => if live_neighbors == 3 {
            Cell::Alive
        } else {
            Cell::Dead
        },
    }
}

/// On a 3 by 3 torus the cell at (0, 0) has every other cell as a neighbour,
/// the opposite corner (2, 2) at index 8 included.
pub proof fn lemma_three_by_three_wraps(cells: Seq<Cell>)
    requires
        cells.len() == 9,
    ensures
        neighbors(cells, 3, 3, 0, 0) == live_value(cells[1]) + live_value(cells[2]) + live_value(
            cells[3],
        ) + live_value(cells[4]) + live_value(cells[5]) + live_value(cells[6]) + live_value(
            cells[7],
        ) + live_value(cells[8]),
{
    assert((-1int) % 3 == 2);
    assert(0int % 3 == 0);
    assert(1int % 3 == 1);
}

/// Each cell's next state depends only on its own wrapped 3 by 3 neighbourhood
/// in the generation before: two generations that agree there give the same
/// next cell, whatever order the cells are visited in.
pub proof fn lemma_next_cell_local(a: Seq<Cell>, b: Seq<Cell>, w: int, h: int, r: int, c: int)
    requires
        w > 0,
        h > 0,
        a.len() == w * h,
        b.len() == w * h,
        0 <= r < h,
        0 <= c < w,
        forall|i: int, j: int|
            r - 1 <= i <= r + 1 && c - 1 <= j <= c + 1 ==> a[#[trigger] wrapped_index(w, h, i, j)]
                == b[wrapped_index(w, h, i, j)],
    ensures
        next_generation(a, w, h)[r * w + c] == next_generation(b, w, h)[r * w + c],
{
    lemma_index_in_bounds(r, c, w, h);
    vstd::arithmetic::div_mod::lemma_fundamental_div_mod_converse(r * w + c, w, r, c);
    lemma_wrap(r, h);
    lemma_wrap(c, w);
    assert(a[wrapped_index(w, h, r, c)] == b[wrapped_index(w, h, r, c)]);
    assert(a[wrapped_index(w, h, r - 1, c - 1)] == b[wrapped_index(w, h, r - 1, c - 1)]);
    assert(a[wrapped_index(w, h, r - 1, c)] == b[wrapped_index(w, h, r - 1, c)]);
    assert(a[wrapped_index(w, h, r - 1, c + 1)] == b[wrapped_index(w, h, r - 1, c + 1)]);
    assert(a[wrapped_index(w, h, r, c - 1)] == b[wrapped_index(w, h, r, c - 1)]);
    assert(a[wrapped_index(w, h, r, c + 1)] == b[wrapped_index(w, h, r, c + 1)]);
    assert(a[wrapped_index(w, h, r + 1, c - 1)] == b[wrapped_index(w, h, r + 1, c - 1)]);
    assert(a[wrapped_index(w, h, r + 1, c)] == b[wrapped_index(w, h, r + 1, c)]);
    assert(a[wrapped_index(w, h, r + 1, c + 1)] == b[wrapped_index(w, h, r + 1, c + 1)]);
}

proof fn lemma_index_unique(r1: int, c1: int, r2: int, c2: int, w: int)
    requires
        0 <= c1 < w,
        0 <= c2 < w,
        r1 * w + c1 == r2 * w + c2,
    ensures
        r1 == r2,
        c1 == c2,
{
    vstd::arithmetic::div_mod::lemma_fundamental_div_mod_converse(r1 * w + c1, w, r1, c1);
    vstd::arithmetic::div_mod::lemma_fundamental_div_mod_converse(r2 * w + c2, w, r2, c2);
}

proof fn lemma_neighbor_dead(cells: Seq<Cell>, w: int, h: int, r: int, c: int, i: int, j: int)
    requires
        w >= 3,
        h >= 3,
        cells.len() == w * h,
        0 <= r < h,
        0 <= c < w,
        r - 1 <= i <= r + 1,
        c - 1 <= j <= c + 1,
        i != r || j != c,
        forall|k: int| 0 <= k < cells.len() && k != r * w + c ==> cells[k] == Cell::Dead,
    ensures
        live_at(cells, w, h, i, j) == 0,
{
    lemma_wrap(i, h);
    lemma_wrap(j, w);
    let ri = i % h;
    let cj = j % w;
    lemma_index_in_bounds(ri, cj, w, h);
    if ri * w + cj == r * w + c {
        lemma_index_unique(ri, cj, r, c, w);
    }
}

/// A live cell that is the only live cell of a grid of at least 3 by 3 has no
/// live neighbours, and is dead in the next generation.
pub proof fn lemma_lone_cell_dies(cells: Seq<Cell>, w: int, h: int, r: int, c: int)
    requires
        w >= 3,
        h >= 3,
        cells.len() == w * h,
        0 <= r < h,
        0 <= c < w,
        cells[r * w + c] == Cell::Alive,
        forall|k: int| 0 <= k < cells.len() && k != r * w + c ==> cells[k] == Cell::Dead,
    ensures
        neighbors(cells, w, h, r, c) == 0,
        next_generation(cells, w, h)[r * w + c] == Cell::Dead,
{
    lemma_index_in_bounds(r, c, w, h);
    vstd::arithmetic::div_mod::lemma_fundamental_div_mod_converse(r * w + c, w, r, c);
    lemma_neighbor_dead(cells, w, h, r, c, r - 1, c - 1);
    lemma_neighbor_dead(cells, w, h, r, c, r - 1, c);
    lemma_neighbor_dead(cells, w, h, r, c, r - 1, c + 1);
    lemma_neighbor_dead(cells, w, h, r, c, r, c - 1);
    lemma_neighbor_dead(cells, w, h, r, c, r, c + 1);
    lemma_neighbor_dead(cells, w, h, r, c, r + 1, c - 1);
    lemma_neighbor_dead(cells, w, h, r, c, r + 1, c);
    lemma_neighbor_dead(cells, w, h, r, c, r + 1, c + 1);
}

} // verus!
