//! The cell grid and its mathematical model.
use vstd::prelude::*;

verus! {

/// One generation as a mathematical value: the extent of the grid and the set
/// of coordinates that are alive.
///
/// Coordinate `(x, y)` lies on the board when `0 <= x < width` and
/// `0 <= y < height`. Nothing wraps around: a coordinate off the board has no
/// state, and counts as dead wherever neighbours are counted.
#[verifier::ext_equal]
pub struct Board {
    pub width: int,
    pub height: int,
    pub alive: Set<(int, int)>,
}

/// One or zero, for counting.
pub open spec fn indicator(b: bool) -> int {
    if b {
        1
    } else {
        0
    }
}

impl Board {
    /// Whether `(x, y)` lies on the board.
    pub open spec fn in_bounds(self, x: int, y: int) -> bool {
        0 <= x < self.width && 0 <= y < self.height
    }

    /// A board has a positive extent and no live cell off it.
    pub open spec fn wf(self) -> bool {
        &&& 0 < self.width
        &&& 0 < self.height
        &&& forall|x: int, y: int| #[trigger] self.alive.contains((x, y)) ==> self.in_bounds(x, y)
    }

    /// Whether `(x, y)` is a live cell of the board. False off the board.
    pub open spec fn is_alive(self, x: int, y: int) -> bool {
        self.in_bounds(x, y) && self.alive.contains((x, y))
    }

    /// The state of `(x, y)`, or `None` off the board.
    pub open spec fn get(self, x: int, y: int) -> Option<bool> {
        if self.in_bounds(x, y) {
            Some(self.alive.contains((x, y)))
        } else {
            None
        }
    }

    /// The board of the given extent with every cell dead.
    pub open spec fn empty(width: int, height: int) -> Board {
        Board { width, height, alive: Set::empty() }
    }

    /// This board with every cell dead.
    pub open spec fn cleared(self) -> Board {
        Board::empty(self.width, self.height)
    }

    /// This board with the state of `(x, y)` replaced. Off the board nothing
    /// changes.
    pub open spec fn with_cell(self, x: int, y: int, alive: bool) -> Board {
        if !self.in_bounds(x, y) {
            self
        } else if alive {
            Board { alive: self.alive.insert((x, y)), ..self }
        } else {
            Board { alive: self.alive.remove((x, y)), ..self }
        }
    }

    /// `(x, y)` as a one-element sequence if it lies on the board, else the
    /// empty sequence.
    pub open spec fn candidate(self, x: int, y: int) -> Seq<(int, int)> {
        if self.in_bounds(x, y) {
            seq![(x, y)]
        } else {
            Seq::empty()
        }
    }

    /// The cells adjacent to `(x, y)`, diagonals included, that lie on the
    /// board, column by column from the left and within a column from the
    /// top. The centre is never among them.
    pub open spec fn neighbors(self, x: int, y: int) -> Seq<(int, int)> {
        self.candidate(x - 1, y - 1) + self.candidate(x - 1, y) + self.candidate(x - 1, y + 1)
            + self.candidate(x, y - 1) + self.candidate(x, y + 1) + self.candidate(x + 1, y - 1)
            + self.candidate(x + 1, y) + self.candidate(x + 1, y + 1)
    }

    /// The number of live cells among the eight cells around `(x, y)`.
    pub open spec fn live_neighbors(self, x: int, y: int) -> int {
        indicator(self.is_alive(x - 1, y - 1)) + indicator(self.is_alive(x - 1, y)) + indicator(
            self.is_alive(x - 1, y + 1),
        ) + indicator(self.is_alive(x, y - 1)) + indicator(self.is_alive(x, y + 1)) + indicator(
            self.is_alive(x + 1, y - 1),
        ) + indicator(self.is_alive(x + 1, y)) + indicator(self.is_alive(x + 1, y + 1))
    }
}

/// Replacing one cell keeps the extent and well-formedness of a board and
/// changes the state of that cell alone.
pub proof fn lemma_with_cell(board: Board, x: int, y: int, alive: bool)
    requires
        board.wf(),
    ensures
        board.with_cell(x, y, alive).wf(),
        board.with_cell(x, y, alive).width == board.width,
        board.with_cell(x, y, alive).height == board.height,
        forall|cx: int, cy: int| #[trigger]
            board.with_cell(x, y, alive).is_alive(cx, cy) == if cx == x && cy == y {
                alive && board.in_bounds(x, y)
            } else {
                board.is_alive(cx, cy)
            },
{
}

/// A sequence of machine coordinates as mathematical ones.
pub open spec fn coordinates(cells: Seq<(isize, isize)>) -> Seq<(int, int)> {
    cells.map_values(|c: (isize, isize)| (c.0 as int, c.1 as int))
}

/// Neither side of a rectangle exceeds its area.
proof fn lemma_sides_within_area(width: int, height: int)
    requires
        0 < width,
        0 < height,
    ensures
        width <= width * height,
        height <= width * height,
{
    assert(width <= width * height) by (nonlinear_arith)
        requires
            0 < width,
            1 <= height,
    ;
    assert(height <= width * height) by (nonlinear_arith)
        requires
            1 <= width,
            0 < height,
    ;
}

/// Row-major position of an on-board cell lies inside the cell buffer.
proof fn lemma_cell_index(x: int, y: int, width: int, height: int)
    requires
        0 <= x < width,
        0 <= y < height,
    ensures
        0 <= y * width + x < width * height,
{
    assert(0 <= y * width) by (nonlinear_arith)
        requires
            0 <= y,
            0 < width,
    ;
    assert(y * width + width <= height * width) by (nonlinear_arith)
        requires
            y + 1 <= height,
            0 < width,
    ;
    assert(height * width == width * height) by (nonlinear_arith);
}

/// Distinct on-board cells have distinct row-major positions.
proof fn lemma_cell_index_injective(x1: int, y1: int, x2: int, y2: int, width: int)
    requires
        0 <= x1 < width,
        0 <= x2 < width,
        y1 * width + x1 == y2 * width + x2,
    ensures
        x1 == x2,
        y1 == y2,
{
    if y1 < y2 {
        assert(y1 * width + width <= y2 * width) by (nonlinear_arith)
            requires
                y1 + 1 <= y2,
                0 < width,
        ;
    } else if y2 < y1 {
        assert(y2 * width + width <= y1 * width) by (nonlinear_arith)
            requires
                y2 + 1 <= y1,
                0 < width,
        ;
    }
}

/// A fixed-size rectangle of cells, each alive or dead.
///
/// The extent is chosen at construction and never changes. Coordinates are
/// signed so that a lookup one step off any edge is an ordinary call that
/// answers `None`.
#[derive(Debug, PartialEq, Eq)]
pub struct Grid {
    width: usize,
    height: usize,
    /// Row-major: cell `(x, y)` is at `y * width + x`.
    cells: Vec<bool>,
}

impl View for Grid {
    type V = Board;

    closed spec fn view(&self) -> Board {
        Board {
            width: self.width as int,
            height: self.height as int,
            alive: Set::new(
                |p: (int, int)|
                    0 <= p.0 < self.width && 0 <= p.1 < self.height && self.cells@[p.1
                        * self.width + p.0],
            ),
        }
    }
}

impl Clone for Grid {
    fn clone(&self) -> (copy: Grid)
        ensures
            copy@ == self@,
    {
        proof {
            use_type_invariant(self);
        }
        let copy = Grid { width: self.width, height: self.height, cells: self.cells.clone() };
        proof {
            assert(copy.cells@ =~= self.cells@);
        }
        copy
    }
}

impl Grid {
    #[verifier::type_invariant]
    spec fn well_formed(&self) -> bool {
        &&& 0 < self.width
        &&& 0 < self.height
        &&& self.width * self.height <= isize::MAX
        &&& self.cells@.len() == self.width * self.height
    }

    /// Whether a grid of this extent can be made: both sides positive, and
    /// the number of cells within what a buffer can hold.
    pub open spec fn valid_extent(width: int, height: int) -> bool {
        0 < width && 0 < height && width * height <= isize::MAX
    }

    /// A grid of the given extent with every cell dead, or `None` where the
    /// extent is not valid.
    pub fn new(width: usize, height: usize) -> (grid: Option<Grid>)
        ensures
            grid is Some <==> Self::valid_extent(width as int, height as int),
            grid matches Some(g) ==> g@ == Board::empty(width as int, height as int),
    {
        if width == 0 || height == 0 {
            return None;
        }
        let count = match width.checked_mul(height) {
            Some(count) => count,
            None => {
                return None;
            },
        };
        if count > isize::MAX as usize {
            return None;
        }
        let mut cells: Vec<bool> = Vec::new();
        let mut i: usize = 0;
        while i < count
            invariant
                i <= count,
                cells@.len() == i,
                forall|k: int| 0 <= k < i ==> !cells@[k],
            decreases count - i,
        {
            cells.push(false);
            i += 1;
        }
        let grid = Grid { width, height, cells };
        proof {
            assert forall|p: (int, int)| !grid@.alive.contains(p) by {
                if 0 <= p.0 < width && 0 <= p.1 < height {
                    lemma_cell_index(p.0, p.1, width as int, height as int);
                }
            }
            assert(grid@.alive =~= Set::empty());
        }
        Some(grid)
    }

    /// The number of columns.
    pub fn width(&self) -> (width: usize)
        ensures
            width == self@.width,
            width <= isize::MAX,
            self@.wf(),
            Self::valid_extent(self@.width, self@.height),
    {
        proof {
            use_type_invariant(self);
            lemma_sides_within_area(self.width as int, self.height as int);
        }
        self.width
    }

    /// The number of rows.
    pub fn height(&self) -> (height: usize)
        ensures
            height == self@.height,
            height <= isize::MAX,
            self@.wf(),
            Self::valid_extent(self@.width, self@.height),
    {
        proof {
            use_type_invariant(self);
            lemma_sides_within_area(self.width as int, self.height as int);
        }
        self.height
    }

    /// The position of `(x, y)` in the cell buffer, or `None` off the grid.
    fn index_of(&self, x: i128, y: i128) -> (index: Option<usize>)
        ensures
            index is Some <==> self@.in_bounds(x as int, y as int),
            index matches Some(i) ==> i == y * self.width + x && i < self.cells@.len(),
    {
        proof {
            use_type_invariant(self);
        }
        if x < 0 || y < 0 || x >= self.width as i128 || y >= self.height as i128 {
            return None;
        }
        proof {
            lemma_cell_index(x as int, y as int, self.width as int, self.height as int);
        }
        Some(y as usize * self.width + x as usize)
    }

    /// The state of the cell at `(x, y)`, or `None` off the grid.
    pub fn get(&self, x: isize, y: isize) -> (state: Option<bool>)
        ensures
            state == self@.get(x as int, y as int),
    {
        match self.index_of(x as i128, y as i128) {
            Some(i) => Some(self.cells[i]),
            None => None,
        }
    }

    /// Sets the cell at `(x, y)` and answers `true`; off the grid it changes
    /// nothing and answers `false`.
    pub fn set(&mut self, x: isize, y: isize, alive: bool) -> (written: bool)
        ensures
            written == old(self)@.in_bounds(x as int, y as int),
            final(self)@ == old(self)@.with_cell(x as int, y as int, alive),
    {
        proof {
            use_type_invariant(&*self);
        }
        match self.index_of(x as i128, y as i128) {
            Some(i) => {
                self.cells[i] = alive;
                proof {
                    let w = self.width as int;
                    assert forall|p: (int, int)|
                        self@.alive.contains(p) == old(self)@.with_cell(
                            x as int,
                            y as int,
                            alive,
                        ).alive.contains(p) by {
                        if 0 <= p.0 < w && 0 <= p.1 < self.height {
                            lemma_cell_index(p.0, p.1, w, self.height as int);
                            if p.1 * w + p.0 == i {
                                lemma_cell_index_injective(p.0, p.1, x as int, y as int, w);
                            }
                        }
                    }
                    assert(self@.alive =~= old(self)@.with_cell(x as int, y as int, alive).alive);
                }
                true
            },
            None => false,
        }
    }

    /// Whether `(x, y)` is a live cell of the grid, for coordinates of any
    /// size.
    fn alive_at(&self, x: i128, y: i128) -> (alive: bool)
        ensures
            alive == self@.is_alive(x as int, y as int),
    {
        match self.index_of(x, y) {
            Some(i) => self.cells[i],
            None => false,
        }
    }

    /// Appends `(x, y)` to `out` if it lies on the grid.
    fn push_candidate(&self, out: &mut Vec<(isize, isize)>, x: i128, y: i128)
        ensures
            coordinates(final(out)@) == coordinates(old(out)@) + self@.candidate(x as int, y as int),
    {
        proof {
            use_type_invariant(self);
            lemma_sides_within_area(self.width as int, self.height as int);
        }
        if self.index_of(x, y).is_some() {
            out.push((x as isize, y as isize));
            assert(coordinates(out@) =~= coordinates(old(out)@) + seq![(x as int, y as int)]);
        } else {
            assert(coordinates(out@) =~= coordinates(old(out)@) + Seq::empty());
        }
    }

    /// The cells adjacent to `(x, y)` that lie on the grid: three for a
    /// corner, five along an edge, eight in the interior. Cells off the grid
    /// are left out, never wrapped to the opposite side.
    pub fn neighbors(&self, x: isize, y: isize) -> (cells: Vec<(isize, isize)>)
        ensures
            coordinates(cells@) == self@.neighbors(x as int, y as int),
            cells@.len() == self@.neighbors(x as int, y as int).len(),
    {
        let x = x as i128;
        let y = y as i128;
        let mut cells: Vec<(isize, isize)> = Vec::new();
        assert(coordinates(cells@) =~= Seq::empty());
        self.push_candidate(&mut cells, x - 1, y - 1);
        self.push_candidate(&mut cells, x - 1, y);
        self.push_candidate(&mut cells, x - 1, y + 1);
        self.push_candidate(&mut cells, x, y - 1);
        self.push_candidate(&mut cells, x, y + 1);
        self.push_candidate(&mut cells, x + 1, y - 1);
        self.push_candidate(&mut cells, x + 1, y);
        self.push_candidate(&mut cells, x + 1, y + 1);
        assert(coordinates(cells@) =~= self@.neighbors(x as int, y as int));
        cells
    }

    /// The number of live cells among the eight cells around `(x, y)`. The
    /// cell itself is not counted, and a cell off the grid counts as dead.
    pub fn live_neighbors(&self, x: isize, y: isize) -> (count: u8)
        ensures
            count == self@.live_neighbors(x as int, y as int),
            count <= 8,
    {
        let x = x as i128;
        let y = y as i128;
        let mut count: u8 = 0;
        if self.alive_at(x - 1, y - 1) {
            count += 1;
        }
        if self.alive_at(x - 1, y) {
            count += 1;
        }
        if self.alive_at(x - 1, y + 1) {
            count += 1;
        }
        if self.alive_at(x, y - 1) {
            count += 1;
        }
        if self.alive_at(x, y + 1) {
            count += 1;
        }
        if self.alive_at(x + 1, y - 1) {
            count += 1;
        }
        if self.alive_at(x + 1, y) {
            count += 1;
        }
        if self.alive_at(x + 1, y + 1) {
            count += 1;
        }
        count
    }

    /// Makes every cell dead.
    pub fn clear(&mut self)
        ensures
            final(self)@ == old(self)@.cleared(),
    {
        proof {
            use_type_invariant(&*self);
        }
        let count = self.cells.len();
        let mut i: usize = 0;
        while i < count
            invariant
                i <= count,
                count == self.cells@.len(),
                self.width == old(self).width,
                self.height == old(self).height,
                self.cells@.len() == self.width * self.height,
                0 < self.width,
                0 < self.height,
                self.width * self.height <= isize::MAX,
                forall|k: int| 0 <= k < i ==> !self.cells@[k],
            decreases count - i,
        {
            self.cells[i] = false;
            i += 1;
        }
        proof {
            assert forall|p: (int, int)| !self@.alive.contains(p) by {
                if 0 <= p.0 < self.width && 0 <= p.1 < self.height {
                    lemma_cell_index(p.0, p.1, self.width as int, self.height as int);
                }
            }
            assert(self@.alive =~= Set::empty());
        }
    }
}

} // verus!
