use vstd::prelude::*;

verus! {

/// The mark a player places in a cell.
#[derive(Clone, Copy, Debug, PartialEq, Eq, Structural)]
pub enum CellShape {
    Circle,
    Cross,
}

/// The other player's shape.
pub open spec fn complement_of(s: CellShape) -> CellShape {
    match s {
        CellShape::Circle => CellShape::Cross,
        CellShape::Cross => CellShape::Circle,
    }
}

impl CellShape {
    /// The shape of the other player.
    pub fn complement(self) -> (r: CellShape)
        ensures
            r == complement_of(self),
            r != self,
    {
        match self {
            CellShape::Circle => CellShape::Cross,
            CellShape::Cross => CellShape::Circle,
        }
    }
}

impl std::ops::Not for CellShape {
    type Output = CellShape;

    /// `!shape` is the shape of the other player.
    fn not(self) -> (r: CellShape)
        ensures
            r == complement_of(self),
    {
        self.complement()
    }
}

impl vstd::std_specs::ops::NotSpecImpl for CellShape {
    open spec fn obeys_not_spec() -> bool {
        true
    }

    open spec fn not_req(self) -> bool {
        true
    }

    open spec fn not_spec(self) -> CellShape {
        complement_of(self)
    }
}

/// The mathematical model of a grid: rows of optional marks.
pub type Board = Seq<Seq<Option<CellShape>>>;

/// Every row of `b` has length `n`, and there are `n` rows.
pub open spec fn is_square(b: Board, n: int) -> bool {
    &&& b.len() == n
    &&& forall|r: int| 0 <= r < n ==> #[trigger] b[r].len() == n
}

/// The empty board of side `n`.
pub open spec fn empty_board(n: nat) -> Board {
    Seq::new(n, |r: int| Seq::new(n, |c: int| None::<CellShape>))
}

/// Every cell of the `n`-by-`n` board `b` holds a mark.
pub open spec fn board_full(b: Board, n: int) -> bool {
    forall|r: int, c: int| 0 <= r < n && 0 <= c < n ==> (#[trigger] b[r][c]) is Some
}

/// The number of lines on a board of side `n`: its rows, its columns and
/// its two diagonals.
pub open spec fn line_count(n: int) -> int {
    2 * n + 2
}

/// The position of the `i`-th cell of line `k` on a board of side `n`.
/// Lines `0..n` are the rows, `n..2n` the columns, `2n` the main diagonal
/// and `2n + 1` the anti-diagonal.
pub open spec fn line_cell(n: int, k: int, i: int) -> (int, int) {
    if k < n {
        (k, i)
    } else if k < 2 * n {
        (i, k - n)
    } else if k == 2 * n {
        (i, i)
    } else {
        (i, n - 1 - i)
    }
}

/// The mark at position `p` of `b`.
pub open spec fn at(b: Board, p: (int, int)) -> Option<CellShape> {
    b[p.0][p.1]
}

/// Line `k` of `b` holds the shape `s` in each of its `n` cells.
pub open spec fn line_held_by(b: Board, n: int, k: int, s: CellShape) -> bool {
    forall|i: int| 0 <= i < n ==> #[trigger] at(b, line_cell(n, k, i)) == Some(s)
}

/// Line `k` of `b` holds one shape in all of its cells.
pub open spec fn line_won(b: Board, n: int, k: int) -> bool {
    exists|s: CellShape| line_held_by(b, n, k, s)
}

/// Some row, column or diagonal of `b` is won.
pub open spec fn board_solved(b: Board, n: int) -> bool {
    exists|k: int| 0 <= k < line_count(n) && #[trigger] line_won(b, n, k)
}

/// The cell at `(r, c)` belongs to a won line of `b`.
pub open spec fn on_won_line(b: Board, n: int, r: int, c: int) -> bool {
    exists|k: int, i: int|
        0 <= k < line_count(n) && 0 <= i < n && #[trigger] line_won(b, n, k)
            && #[trigger] line_cell(n, k, i) == (r, c)
}

/// The board left by clearing every cell of `b` that is on no won line.
pub open spec fn keep_won_lines(b: Board, n: int) -> Board {
    Seq::new(
        b.len(),
        |r: int|
            Seq::new(
                b[r].len(),
                |c: int|
                    if on_won_line(b, n, r, c) {
                        b[r][c]
                    } else {
                        None
                    },
            ),
    )
}

/// One of the lines that can win a round.
#[derive(Clone, Copy, Debug, PartialEq, Eq, Structural)]
pub enum Line {
    Row(usize),
    Column(usize),
    Diagonal,
    AntiDiagonal,
}

/// The number of `l` among the lines of a board of side `n` (see `line_cell`).
pub open spec fn line_index(n: int, l: Line) -> int {
    match l {
        Line::Row(r) => r as int,
        Line::Column(c) => n + c,
        Line::Diagonal => 2 * n,
        Line::AntiDiagonal => 2 * n + 1,
    }
}

/// `l` names a line of a board of side `n`.
pub open spec fn line_in_board(n: int, l: Line) -> bool {
    match l {
        Line::Row(r) => r < n,
        Line::Column(c) => c < n,
        _ => true,
    }
}

/// A cell lies on a won line exactly when its row, its column, or a
/// diagonal through it is won.
pub proof fn lemma_on_won_line(b: Board, n: int, r: int, c: int)
    requires
        0 <= r < n,
        0 <= c < n,
    ensures
        on_won_line(b, n, r, c) <==> (line_won(b, n, r) || line_won(b, n, n + c) || (r == c
            && line_won(b, n, 2 * n)) || (r + c == n - 1 && line_won(b, n, 2 * n + 1))),
{
    if on_won_line(b, n, r, c) {
        let (k, i) = choose|k: int, i: int|
            0 <= k < line_count(n) && 0 <= i < n && #[trigger] line_won(b, n, k)
                && #[trigger] line_cell(n, k, i) == (r, c);
        if k < n {
        } else if k < 2 * n {
        } else if k == 2 * n {
        } else {
        }
    }
    if line_won(b, n, r) {
        assert(line_cell(n, r, c) == (r, c));
    }
    if line_won(b, n, n + c) {
        assert(line_cell(n, n + c, r) == (r, c));
    }
    if r == c && line_won(b, n, 2 * n) {
        assert(line_cell(n, 2 * n, r) == (r, c));
    }
    if r + c == n - 1 && line_won(b, n, 2 * n + 1) {
        assert(line_cell(n, 2 * n + 1, r) == (r, c));
    }
}

/// A board with no mark is neither full nor solved.
pub proof fn lemma_empty_board_open(n: nat)
    requires
        n > 0,
    ensures
        !board_full(empty_board(n), n as int),
        !board_solved(empty_board(n), n as int),
{
    let b = empty_board(n);
    assert(b[0][0] is None);
    assert forall|k: int| 0 <= k < line_count(n as int) implies !#[trigger] line_won(b, n as int, k) by {
        assert forall|s: CellShape| !line_held_by(b, n as int, k, s) by {
            assert(at(b, line_cell(n as int, k, 0)) is None);
        }
    }
}

/// A row, column or diagonal that holds one shape in every cell solves the
/// board.
pub proof fn lemma_uniform_line_solves(b: Board, n: int, k: int, s: CellShape)
    requires
        0 <= k < line_count(n),
        line_held_by(b, n, k, s),
    ensures
        line_won(b, n, k),
        board_solved(b, n),
{
    assert(line_won(b, n, k));
}

/// A line that holds two different shapes is not won; the board is then
/// solved only if some other line is.
pub proof fn lemma_mixed_line_not_won(b: Board, n: int, k: int, i: int, j: int)
    requires
        0 <= k < line_count(n),
        0 <= i < n,
        0 <= j < n,
        at(b, line_cell(n, k, i)) is Some,
        at(b, line_cell(n, k, j)) is Some,
        at(b, line_cell(n, k, i)) != at(b, line_cell(n, k, j)),
    ensures
        !line_won(b, n, k),
        board_solved(b, n) <==> exists|m: int| 0 <= m < line_count(n) && m != k && #[trigger] line_won(b, n, m),
{
    assert forall|s: CellShape| !line_held_by(b, n, k, s) by {
        if line_held_by(b, n, k, s) {
            assert(at(b, line_cell(n, k, i)) == Some(s));
            assert(at(b, line_cell(n, k, j)) == Some(s));
        }
    }
    if board_solved(b, n) {
        let m = choose|m: int| 0 <= m < line_count(n) && #[trigger] line_won(b, n, m);
        assert(m != k);
    }
}

/// When a single row is won, clearing the cells off won lines keeps that
/// row as it was and empties every other cell.
pub proof fn lemma_clear_keeps_only_won_row(b: Board, n: int, row: int)
    requires
        is_square(b, n),
        0 <= row < n,
        line_won(b, n, row),
        forall|k: int| 0 <= k < line_count(n) && k != row ==> !#[trigger] line_won(b, n, k),
    ensures
        keep_won_lines(b, n)[row] == b[row],
        forall|r: int, c: int|
            0 <= r < n && 0 <= c < n && r != row ==> (#[trigger] keep_won_lines(b, n)[r][c]) is None,
{
    let kept = keep_won_lines(b, n);
    assert forall|c: int| 0 <= c < n implies #[trigger] kept[row][c] == b[row][c] by {
        lemma_on_won_line(b, n, row, c);
    }
    assert(kept[row] =~= b[row]);
    assert forall|r: int, c: int| 0 <= r < n && 0 <= c < n && r != row implies (#[trigger] kept[r][c]) is None by {
        lemma_on_won_line(b, n, r, c);
        assert(!line_won(b, n, n + c));
        if r == c {
            assert(!line_won(b, n, 2 * n));
        }
        if r + c == n - 1 {
            assert(!line_won(b, n, 2 * n + 1));
        }
    }
}

/// A board whose cells all hold a mark while no line is won is a draw:
/// full and not solved.
pub proof fn lemma_full_without_line_is_draw(b: Board, n: int)
    requires
        forall|r: int, c: int| 0 <= r < n && 0 <= c < n ==> (#[trigger] b[r][c]) is Some,
        forall|k: int| 0 <= k < line_count(n) ==> !#[trigger] line_won(b, n, k),
    ensures
        board_full(b, n),
        !board_solved(b, n),
{
}

/// A square grid of optional marks.
#[derive(Clone, Debug, PartialEq, Eq)]
pub struct CellGrid {
    cells: Vec<Vec<Option<CellShape>>>,
}

impl View for CellGrid {
    type V = Board;

    closed spec fn view(&self) -> Board {
        Seq::new(self.cells@.len(), |r: int| self.cells@[r]@)
    }
}

impl CellGrid {
    /// The side of the grid.
    pub open spec fn side(&self) -> int {
        self@.len() as int
    }

    /// A grid is well formed when it is square and not empty.
    pub open spec fn wf(&self) -> bool {
        &&& self.side() > 0
        &&& is_square(self@, self.side())
    }

    /// Rows of `size` empty cells, `size` of them.
    fn empty_cells(size: usize) -> (cells: Vec<Vec<Option<CellShape>>>)
        ensures
            cells@.len() == size,
            forall|r: int| 0 <= r < size ==> (#[trigger] cells@[r])@ == empty_board(size as nat)[r],
    {
        let mut cells: Vec<Vec<Option<CellShape>>> = Vec::new();
        let mut r: usize = 0;
        while r < size
            invariant
                r <= size,
                cells@.len() == r,
                forall|i: int| 0 <= i < r ==> (#[trigger] cells@[i])@ == empty_board(size as nat)[i],
            decreases size - r,
        {
            let mut row: Vec<Option<CellShape>> = Vec::new();
            let mut c: usize = 0;
            while c < size
                invariant
                    c <= size,
                    row@.len() == c,
                    forall|j: int| 0 <= j < c ==> row@[j] is None,
                decreases size - c,
            {
                row.push(None);
                c = c + 1;
            }
            assert(row@ =~= empty_board(size as nat)[r as int]);
            cells.push(row);
            r = r + 1;
        }
        cells
    }

    /// An empty grid of side `size`; `None` when `size` is zero.
    pub fn new(size: usize) -> (r: Option<CellGrid>)
        ensures
            r is None <==> size == 0,
            r matches Some(g) ==> g.wf() && g.side() == size && g@ == empty_board(size as nat),
    {
        if size == 0 {
            return None;
        }
        let g = CellGrid { cells: Self::empty_cells(size) };
        assert(g@ =~= empty_board(size as nat));
        Some(g)
    }

    /// The side of the grid.
    pub fn size(&self) -> (r: usize)
        ensures
            r == self.side(),
    {
        self.cells.len()
    }

    /// The mark at row `row`, column `col`.
    pub fn get(&self, row: usize, col: usize) -> (r: Option<CellShape>)
        requires
            self.wf(),
            row < self.side(),
            col < self.side(),
        ensures
            r == self@[row as int][col as int],
    {
        assert(self@[row as int] == self.cells@[row as int]@);
        self.cells[row][col]
    }

    /// Writes `value` into the cell at row `row`, column `col`.
    pub fn set(&mut self, row: usize, col: usize, value: Option<CellShape>)
        requires
            old(self).wf(),
            row < old(self).side(),
            col < old(self).side(),
        ensures
            final(self).wf(),
            final(self).side() == old(self).side(),
            final(self)@ == old(self)@.update(row as int, old(self)@[row as int].update(col as int, value)),
    {
        assert(self@[row as int] == self.cells@[row as int]@);
        self.cells[row].set(col, value);
        assert(self@ =~= old(self)@.update(row as int, old(self)@[row as int].update(col as int, value)));
    }

    /// Every cell holds a mark.
    pub fn is_full(&self) -> (r: bool)
        requires
            self.wf(),
        ensures
            r == board_full(self@, self.side()),
    {
        let n = self.cells.len();
        let mut r: usize = 0;
        while r < n
            invariant
                self.wf(),
                n == self.side(),
                r <= n,
                forall|i: int, j: int| 0 <= i < r && 0 <= j < n ==> (#[trigger] self@[i][j]) is Some,
            decreases n - r,
        {
            let mut c: usize = 0;
            while c < n
                invariant
                    self.wf(),
                    n == self.side(),
                    r < n,
                    c <= n,
                    forall|i: int, j: int| 0 <= i < r && 0 <= j < n ==> (#[trigger] self@[i][j]) is Some,
                    forall|j: int| 0 <= j < c ==> (#[trigger] self@[r as int][j]) is Some,
                decreases n - c,
            {
                assert(self@[r as int] == self.cells@[r as int]@);
                if self.cells[r][c].is_none() {
                    return false;
                }
                c = c + 1;
            }
            r = r + 1;
        }
        true
    }

    /// The position of the `i`-th cell of line `l`.
    fn line_position(&self, l: Line, i: usize) -> (p: (usize, usize))
        requires
            self.wf(),
            line_in_board(self.side(), l),
            i < self.side(),
        ensures
            p.0 < self.side(),
            p.1 < self.side(),
            (p.0 as int, p.1 as int) == line_cell(self.side(), line_index(self.side(), l), i as int),
    {
        let n = self.cells.len();
        match l {
            Line::Row(r) => (r, i),
            Line::Column(c) => (i, c),
            Line::Diagonal => (i, i),
            Line::AntiDiagonal => (i, n - 1 - i),
        }
    }

    /// Line `l` holds the same mark in all of its cells.
    pub fn is_line_won(&self, l: Line) -> (r: bool)
        requires
            self.wf(),
            line_in_board(self.side(), l),
        ensures
            r == line_won(self@, self.side(), line_index(self.side(), l)),
    {
        let ghost n = self.side();
        let ghost k = line_index(n, l);
        let size = self.cells.len();
        let p0 = self.line_position(l, 0);
        let first = self.get(p0.0, p0.1);
        match first {
            None => {
                assert forall|s: CellShape| !line_held_by(self@, n, k, s) by {
                    assert(at(self@, line_cell(n, k, 0)) != Some(s));
                }
                false
            },
            Some(shape) => {
                let mut i: usize = 1;
                while i < size
                    invariant
                        self.wf(),
                        size == n,
                        n == self.side(),
                        line_in_board(n, l),
                        k == line_index(n, l),
                        1 <= i <= size,
                        at(self@, line_cell(n, k, 0)) == Some(shape),
                        forall|j: int| 0 <= j < i ==> #[trigger] at(self@, line_cell(n, k, j)) == Some(shape),
                    decreases size - i,
                {
                    let p = self.line_position(l, i);
                    if self.get(p.0, p.1) != Some(shape) {
                        assert forall|s: CellShape| !line_held_by(self@, n, k, s) by {
                            if line_held_by(self@, n, k, s) {
                                assert(at(self@, line_cell(n, k, 0)) == Some(s));
                                assert(at(self@, line_cell(n, k, i as int)) == Some(s));
                            }
                        }
                        return false;
                    }
                    i = i + 1;
                }
                assert(line_held_by(self@, n, k, shape));
                true
            },
        }
    }

    /// Some row, column or diagonal holds the same mark in all of its cells.
    pub fn is_solved(&self) -> (r: bool)
        requires
            self.wf(),
        ensures
            r == board_solved(self@, self.side()),
    {
        let ghost n = self.side();
        let size = self.cells.len();
        let mut i: usize = 0;
        while i < size
            invariant
                self.wf(),
                size == n,
                n == self.side(),
                i <= size,
                forall|k: int| 0 <= k < i ==> !#[trigger] line_won(self@, n, k),
                forall|k: int| n <= k < n + i ==> !#[trigger] line_won(self@, n, k),
            decreases size - i,
        {
            if self.is_line_won(Line::Row(i)) {
                assert(line_won(self@, n, i as int));
                return true;
            }
            if self.is_line_won(Line::Column(i)) {
                assert(line_won(self@, n, n + i));
                return true;
            }
            i = i + 1;
        }
        if self.is_line_won(Line::Diagonal) {
            assert(line_won(self@, n, 2 * n));
            return true;
        }
        if self.is_line_won(Line::AntiDiagonal) {
            assert(line_won(self@, n, 2 * n + 1));
            return true;
        }
        assert(!board_solved(self@, n)) by {
            assert forall|k: int| 0 <= k < line_count(n) implies !#[trigger] line_won(self@, n, k) by {
                if k < n {
                } else if k < 2 * n {
                } else if k == 2 * n {
                } else {
                }
            }
        }
        false
    }

    /// Empties every cell.
    pub fn clear_all(&mut self)
        requires
            old(self).wf(),
        ensures
            final(self).wf(),
            final(self).side() == old(self).side(),
            final(self)@ == empty_board(old(self).side() as nat),
            !board_full(final(self)@, final(self).side()),
    {
        let size = self.cells.len();
        self.cells = Self::empty_cells(size);
        assert(self@ =~= empty_board(size as nat));
        proof {
            lemma_empty_board_open(size as nat);
        }
    }

    /// Empties every cell that lies on no won line; the cells of won lines
    /// keep their marks. Without a won line the grid is left as it is.
    pub fn clear_non_solved(&mut self)
        requires
            old(self).wf(),
        ensures
            final(self).wf(),
            final(self).side() == old(self).side(),
            final(self)@ == if board_solved(old(self)@, old(self).side()) {
                keep_won_lines(old(self)@, old(self).side())
            } else {
                old(self)@
            },
    {
        if !self.is_solved() {
            return;
        }
        let ghost b = self@;
        let ghost n = self.side();
        let size = self.cells.len();
        let diagonal = self.is_line_won(Line::Diagonal);
        let anti_diagonal = self.is_line_won(Line::AntiDiagonal);
        let mut columns: Vec<bool> = Vec::new();
        let mut j: usize = 0;
        while j < size
            invariant
                self.wf(),
                self@ == b,
                size == n,
                n == self.side(),
                j <= size,
                columns@.len() == j,
                forall|c: int| 0 <= c < j ==> #[trigger] columns@[c] == line_won(b, n, n + c),
            decreases size - j,
        {
            columns.push(self.is_line_won(Line::Column(j)));
            j = j + 1;
        }
        let ghost target = keep_won_lines(b, n);
        let mut cells: Vec<Vec<Option<CellShape>>> = Vec::new();
        let mut r: usize = 0;
        while r < size
            invariant
                self.wf(),
                self@ == b,
                size == n,
                n == self.side(),
                r <= size,
                columns@.len() == size,
                forall|c: int| 0 <= c < size ==> #[trigger] columns@[c] == line_won(b, n, n + c),
                diagonal == line_won(b, n, 2 * n),
                anti_diagonal == line_won(b, n, 2 * n + 1),
                target == keep_won_lines(b, n),
                cells@.len() == r,
                forall|i: int| 0 <= i < r ==> (#[trigger] cells@[i])@ == target[i],
            decreases size - r,
        {
            let row_won = self.is_line_won(Line::Row(r));
            let mut row: Vec<Option<CellShape>> = Vec::new();
            let mut c: usize = 0;
            while c < size
                invariant
                    self.wf(),
                    self@ == b,
                    size == n,
                    n == self.side(),
                    r < size,
                    c <= size,
                    columns@.len() == size,
                    forall|c: int| 0 <= c < size ==> #[trigger] columns@[c] == line_won(b, n, n + c),
                    diagonal == line_won(b, n, 2 * n),
                    anti_diagonal == line_won(b, n, 2 * n + 1),
                    row_won == line_won(b, n, r as int),
                    target == keep_won_lines(b, n),
                    row@.len() == c,
                    forall|j: int| 0 <= j < c ==> #[trigger] row@[j] == target[r as int][j],
                decreases size - c,
            {
                proof {
                    lemma_on_won_line(b, n, r as int, c as int);
                }
                let keep = row_won || columns[c] || (r == c && diagonal) || (c == size - 1 - r
                    && anti_diagonal);
                if keep {
                    row.push(self.get(r, c));
                } else {
                    row.push(None);
                }
                c = c + 1;
            }
            assert(row@ =~= target[r as int]);
            cells.push(row);
            r = r + 1;
        }
        self.cells = cells;
        assert(self@ =~= target);
    }
}

} // verus!
