//! The board: nine cells in row-major order, move legality, and the
//! win and draw predicates.
use vstd::prelude::*;

verus! {

/// What a cell holds: a mark of one of the two players, or nothing.
#[derive(Clone, Copy, Debug, PartialEq, Eq, Structural)]
pub enum Field {
    X,
    O,
    E,
}

impl Field {
    /// The character that shows the cell: `X`, `O`, or a space when empty.
    pub open spec fn spec_symbol(self) -> char {
        match self {
            Field::X => 'X',
            Field::O => 'O',
            Field::E => ' ',
        }
    }

    /// The character that shows the cell.
    pub fn symbol(&self) -> (r: char)
        ensures
            r == self.spec_symbol(),
    {
        match self {
            Field::X => 'X',
            Field::O => 'O',
            Field::E => ' ',
        }
    }
}

/// Number of cells on the board.
pub const BOARD_SIZE: usize = 9;

/// Number of winning lines: three rows, three columns, two diagonals.
pub const LINE_COUNT: usize = 8;

/// The cell indices of winning line `k`, for `0 <= k < LINE_COUNT`.
pub open spec fn line(k: int) -> (int, int, int) {
    if k == 0 {
        (0, 1, 2)
    } else if k == 1 {
        (3, 4, 5)
    } else if k == 2 {
        (6, 7, 8)
    } else if k == 3 {
        (0, 3, 6)
    } else if k == 4 {
        (1, 4, 7)
    } else if k == 5 {
        (2, 5, 8)
    } else if k == 6 {
        (0, 4, 8)
    } else {
        (2, 4, 6)
    }
}

/// Line `k` holds the same mark in all three of its cells.
pub open spec fn line_complete(cells: Seq<Field>, k: int) -> bool {
    let (a, b, c) = line(k);
    &&& cells[a] != Field::E
    &&& cells[b] == cells[a]
    &&& cells[c] == cells[a]
}

/// Some winning line is complete.
pub open spec fn has_winning_line(cells: Seq<Field>) -> bool {
    exists|k: int| 0 <= k < LINE_COUNT && #[trigger] line_complete(cells, k)
}

/// No cell is empty.
pub open spec fn is_full(cells: Seq<Field>) -> bool {
    forall|i: int| 0 <= i < cells.len() ==> cells[i] != Field::E
}

/// A mark may be placed at `index`: it is on the board and its cell is empty.
pub open spec fn placeable(cells: Seq<Field>, index: int) -> bool {
    0 <= index < BOARD_SIZE && cells[index] == Field::E
}

/// The cell indices of winning line `k`.
fn winning_line(k: usize) -> (r: (usize, usize, usize))
    requires
        k < LINE_COUNT,
    ensures
        (r.0 as int, r.1 as int, r.2 as int) == line(k as int),
        r.0 < BOARD_SIZE,
        r.1 < BOARD_SIZE,
        r.2 < BOARD_SIZE,
{
    match k {
        0 => (0, 1, 2),
        1 => (3, 4, 5),
        2 => (6, 7, 8),
        3 => (0, 3, 6),
        4 => (1, 4, 7),
        5 => (2, 5, 8),
        6 => (0, 4, 8),
        _ => (2, 4, 6),
    }
}

/// The grid of a game, cell `3 * row + column` for rows and columns `0..3`.
pub struct Board {
    pub fields: Vec<Field>,
}

impl Board {
    /// The board has exactly `BOARD_SIZE` cells.
    pub open spec fn wf(&self) -> bool {
        self.fields@.len() == BOARD_SIZE
    }

    /// A board with every cell empty.
    pub fn new() -> (b: Board)
        ensures
            b.wf(),
            forall|i: int| 0 <= i < BOARD_SIZE ==> b.fields@[i] == Field::E,
    {
        let mut fields: Vec<Field> = Vec::new();
        let mut i: usize = 0;
        while i < BOARD_SIZE
            invariant
                i <= BOARD_SIZE,
                fields@.len() == i,
                forall|j: int| 0 <= j < i ==> fields@[j] == Field::E,
            decreases BOARD_SIZE - i,
        {
            fields.push(Field::E);
            i = i + 1;
        }
        Board { fields }
    }

    /// The value of the cell at `index`.
    pub fn get(&self, index: usize) -> (r: Field)
        requires
            self.wf(),
            index < BOARD_SIZE,
        ensures
            r == self.fields@[index as int],
    {
        self.fields[index]
    }

    /// Whether a mark may be placed at `index`. An index off the board is
    /// not placeable, which is an answer and not an error.
    pub fn can_place(&self, index: usize) -> (r: bool)
        requires
            self.wf(),
        ensures
            r == placeable(self.fields@, index as int),
    {
        if index >= self.fields.len() {
            return false;
        }
        self.fields[index] == Field::E
    }

    /// Writes `player` into the cell at `index`. Writing `Field::E` clears
    /// the cell. The index must be on the board: check it with `can_place`.
    pub fn place(&mut self, index: usize, player: &Field)
        requires
            old(self).wf(),
            index < BOARD_SIZE,
        ensures
            final(self).wf(),
            final(self).fields@ == old(self).fields@.update(index as int, *player),
    {
        match player {
            Field::X => self.fields.set(index, Field::X),
            Field::O => self.fields.set(index, Field::O),
            Field::E => self.fields.set(index, Field::E),
        }
    }

    /// Whether some winning line holds three equal marks.
    pub fn check_win(&self) -> (r: bool)
        requires
            self.wf(),
        ensures
            r == has_winning_line(self.fields@),
    {
        let mut outcome = false;
        let mut k: usize = 0;
        while k < LINE_COUNT
            invariant
                self.wf(),
                k <= LINE_COUNT,
                outcome == exists|j: int| 0 <= j < k && #[trigger] line_complete(self.fields@, j),
            decreases LINE_COUNT - k,
        {
            let (a, b, c) = winning_line(k);
            let first = self.fields[a];
            if first != Field::E && self.fields[b] == first && self.fields[c] == first {
                outcome = true;
            }
            assert(line_complete(self.fields@, k as int) == (first != Field::E
                && self.fields@[b as int] == first && self.fields@[c as int] == first));
            k = k + 1;
        }
        outcome
    }

    /// Whether every cell holds a mark. This does not look for a winning
    /// line: a full board with one is won, so ask `check_win` first.
    pub fn check_draw(&self) -> (r: bool)
        requires
            self.wf(),
        ensures
            r == is_full(self.fields@),
    {
        let mut i: usize = 0;
        while i < self.fields.len()
            invariant
                i <= self.fields@.len(),
                forall|j: int| 0 <= j < i ==> self.fields@[j] != Field::E,
            decreases self.fields@.len() - i,
        {
            if self.fields[i] == Field::E {
                return false;
            }
            i = i + 1;
        }
        true
    }
}

/// A board whose winning line `k` holds the mark `m` in all three cells is
/// won, whatever the other cells hold.
pub proof fn lemma_filled_line_wins(cells: Seq<Field>, k: int, m: Field)
    requires
        cells.len() == BOARD_SIZE,
        0 <= k < LINE_COUNT,
        m != Field::E,
        cells[line(k).0] == m,
        cells[line(k).1] == m,
        cells[line(k).2] == m,
    ensures
        has_winning_line(cells),
{
    assert(line_complete(cells, k));
}

/// A board filled entirely with one mark is won.
pub proof fn lemma_uniform_board_wins(cells: Seq<Field>, m: Field)
    requires
        cells.len() == BOARD_SIZE,
        m != Field::E,
        forall|i: int| 0 <= i < BOARD_SIZE ==> cells[i] == m,
    ensures
        has_winning_line(cells),
{
    lemma_filled_line_wins(cells, 0, m);
}

/// A board with no complete line and an empty cell is neither won nor full.
pub proof fn lemma_open_board_undecided(cells: Seq<Field>, i: int)
    requires
        cells.len() == BOARD_SIZE,
        forall|k: int| 0 <= k < LINE_COUNT ==> !line_complete(cells, k),
        0 <= i < BOARD_SIZE,
        cells[i] == Field::E,
    ensures
        !has_winning_line(cells),
        !is_full(cells),
{
}

/// A board with a mark in every cell and no complete line is full and
/// not won: a draw.
pub proof fn lemma_full_board_without_line_is_draw(cells: Seq<Field>)
    requires
        cells.len() == BOARD_SIZE,
        forall|k: int| 0 <= k < LINE_COUNT ==> !line_complete(cells, k),
        forall|i: int| 0 <= i < BOARD_SIZE ==> cells[i] != Field::E,
    ensures
        is_full(cells),
        !has_winning_line(cells),
{
}

/// No index at or past the end of the board is placeable, whatever the
/// cells hold.
pub proof fn lemma_off_board_not_placeable(cells: Seq<Field>, index: int)
    requires
        cells.len() == BOARD_SIZE,
        index >= BOARD_SIZE,
    ensures
        !placeable(cells, index),
{
}

/// Once a mark is placed at an index, that index is no longer placeable.
pub proof fn lemma_placed_cell_not_placeable(cells: Seq<Field>, index: int, m: Field)
    requires
        cells.len() == BOARD_SIZE,
        0 <= index < BOARD_SIZE,
        m != Field::E,
    ensures
        !placeable(cells.update(index, m), index),
{
}

} // verus!
