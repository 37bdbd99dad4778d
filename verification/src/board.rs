//! The 9-cell board model and its win/draw evaluation.

use vstd::prelude::*;

verus! {

/// One cell of the board: empty, or holding the first or second mover's mark.
/// A cell never changes again once it is non-empty.
#[derive(Clone, Copy, PartialEq, Eq, Structural, Debug)]
pub enum Mark {
    Empty,
    First,
    Second,
}

impl Default for Mark {
    fn default() -> (r: Self)
        ensures
            r == Mark::Empty,
    {
        Mark::Empty
    }
}

/// Result of evaluating a board: the game goes on, the given mark completed
/// the line with the given identifier, or the board is full with no line.
#[derive(Clone, Copy, PartialEq, Eq, Structural, Debug)]
pub enum Outcome {
    Ongoing,
    Line(Mark, u8),
    Draw,
}

/// The board rejects a mark aimed at a cell that is already taken.
#[derive(Clone, Copy, PartialEq, Eq, Structural, Debug)]
pub enum BoardError {
    CellOccupied,
}

/// The three cell indices of line `id`, in the fixed identifier order:
/// 0-2 the rows top to bottom, 3-5 the columns left to right, 6 the
/// top-left to bottom-right diagonal, 7 the other diagonal.
pub open spec fn line_cells(id: int) -> (int, int, int) {
    if id == 0 {
        (0, 1, 2)
    } else if id == 1 {
        (3, 4, 5)
    } else if id == 2 {
        (6, 7, 8)
    } else if id == 3 {
        (0, 3, 6)
    } else if id == 4 {
        (1, 4, 7)
    } else if id == 5 {
        (2, 5, 8)
    } else if id == 6 {
        (0, 4, 8)
    } else {
        (2, 4, 6)
    }
}

/// Line `id` holds three equal, non-empty marks.
pub open spec fn line_complete(b: Seq<Mark>, id: int) -> bool {
    let (i, j, k) = line_cells(id);
    b[i] != Mark::Empty && b[i] == b[j] && b[j] == b[k]
}

/// Identifier of the first complete line at or after `id`, or 8 if there is
/// none: evaluation checks the lines in identifier order and short-circuits.
pub open spec fn first_complete_line_from(b: Seq<Mark>, id: int) -> int
    decreases 8 - id,
{
    if id < 0 || id >= 8 {
        8
    } else if line_complete(b, id) {
        id
    } else {
        first_complete_line_from(b, id + 1)
    }
}

/// The nine cells of a board nobody has moved on yet.
pub open spec fn empty_board() -> Seq<Mark> {
    Seq::new(9, |i: int| Mark::Empty)
}

pub open spec fn board_full(b: Seq<Mark>) -> bool {
    forall|i: int| 0 <= i < 9 ==> b[i] != Mark::Empty
}

/// What evaluating a board yields: the lowest-numbered complete line wins;
/// a full board without one is a draw; anything else is still ongoing.
pub open spec fn spec_evaluate(b: Seq<Mark>) -> Outcome {
    let id = first_complete_line_from(b, 0);
    if id < 8 {
        Outcome::Line(b[line_cells(id).0], id as u8)
    } else if board_full(b) {
        Outcome::Draw
    } else {
        Outcome::Ongoing
    }
}

proof fn lemma_first_line_between(b: Seq<Mark>, from: int, id: int)
    requires
        0 <= from <= id < 8,
        line_complete(b, id),
        forall|j: int| from <= j < id ==> !line_complete(b, j),
    ensures
        first_complete_line_from(b, from) == id,
    decreases id - from,
{
    if from < id {
        lemma_first_line_between(b, from + 1, id);
    }
}

proof fn lemma_no_line_from(b: Seq<Mark>, from: int)
    requires
        0 <= from <= 8,
        forall|j: int| from <= j < 8 ==> !line_complete(b, j),
    ensures
        first_complete_line_from(b, from) == 8,
    decreases 8 - from,
{
    if from < 8 {
        lemma_no_line_from(b, from + 1);
    }
}

/// Law: once a line is complete, evaluation reports a win: the winning line
/// is the lowest-numbered complete one, at most `id`, and the reported mark
/// is the mark standing on that line.
pub proof fn lemma_win_detected(b: Seq<Mark>, id: int)
    requires
        b.len() == 9,
        0 <= id < 8,
        line_complete(b, id),
    ensures
        ({
            let w = first_complete_line_from(b, 0);
            &&& 0 <= w <= id
            &&& line_complete(b, w)
            &&& spec_evaluate(b) == Outcome::Line(b[line_cells(w).0], w as u8)
        }),
{
    let w = first_complete_line_from(b, 0);
    lemma_first_line_prefix(b, 0, id);
}

proof fn lemma_first_line_prefix(b: Seq<Mark>, from: int, id: int)
    requires
        0 <= from <= id < 8,
        line_complete(b, id),
    ensures
        from <= first_complete_line_from(b, from) <= id,
        line_complete(b, first_complete_line_from(b, from)),
    decreases id - from,
{
    if !line_complete(b, from) && from < id {
        lemma_first_line_prefix(b, from + 1, id);
    }
}

/// Law: whatever order the three cells of line `id` were filled in, as soon
/// as the line holds three equal marks and no lower-numbered line is
/// complete, evaluation yields exactly `Line(mark, id)` for the mark on it.
pub proof fn lemma_lowest_line_wins(b: Seq<Mark>, id: int)
    requires
        b.len() == 9,
        0 <= id < 8,
        line_complete(b, id),
        forall|j: int| 0 <= j < id ==> !line_complete(b, j),
    ensures
        spec_evaluate(b) == Outcome::Line(b[line_cells(id).0], id as u8),
{
    lemma_first_line_between(b, 0, id);
}

/// Law: a fully filled board with no complete line evaluates to a draw,
/// never to an ongoing game.
pub proof fn lemma_full_board_draws(b: Seq<Mark>)
    requires
        b.len() == 9,
        board_full(b),
        forall|id: int| 0 <= id < 8 ==> !line_complete(b, id),
    ensures
        spec_evaluate(b) == Outcome::Draw,
{
    lemma_no_line_from(b, 0);
}

/// The 9 cells in row-major order; a cell set to a non-empty mark keeps it
/// for the rest of the session.
pub struct Board {
    cells: Vec<Mark>,
}

impl View for Board {
    type V = Seq<Mark>;

    closed spec fn view(&self) -> Seq<Mark> {
        self.cells@
    }
}

impl Board {
    pub open spec fn wf(&self) -> bool {
        self@.len() == 9
    }

    /// A board of nine empty cells.
    pub fn new() -> (b: Board)
        ensures
            b.wf(),
            b@ == empty_board(),
    {
        let mut cells: Vec<Mark> = Vec::new();
        let mut i: usize = 0;
        while i < 9
            invariant
                cells@.len() == i,
                i <= 9,
                forall|j: int| 0 <= j < i ==> cells@[j] == Mark::Empty,
            decreases 9 - i,
        {
            cells.push(Mark::Empty);
            i += 1;
        }
        let b = Board { cells };
        proof {
            assert(b@ =~= empty_board());
        }
        b
    }

    pub fn get(&self, cell: usize) -> (m: Mark)
        requires
            self.wf(),
            cell < 9,
        ensures
            m == self@[cell as int],
    {
        self.cells[cell]
    }

    /// Set `cell` to `mark`, irrevocably; a cell already taken is refused
    /// and the board is left as it was.
    pub fn apply(&mut self, cell: usize, mark: Mark) -> (r: Result<(), BoardError>)
        requires
            old(self).wf(),
            cell < 9,
            mark != Mark::Empty,
        ensures
            final(self).wf(),
            old(self)@[cell as int] == Mark::Empty ==> r == Ok::<(), BoardError>(())
                && final(self)@ == old(self)@.update(cell as int, mark),
            old(self)@[cell as int] != Mark::Empty ==> r == Err::<(), BoardError>(
                BoardError::CellOccupied,
            ) && final(self)@ == old(self)@,
    {
        if self.cells[cell] == Mark::Empty {
            self.cells[cell] = mark;
            Ok(())
        } else {
            Err(BoardError::CellOccupied)
        }
    }

    /// Check the 8 lines in identifier order; the first complete one wins.
    /// With no complete line, a board without empty cells is a draw and any
    /// other board is still ongoing.
    pub fn evaluate(&self) -> (r: Outcome)
        requires
            self.wf(),
        ensures
            r == spec_evaluate(self@),
            r matches Outcome::Line(m, id) ==> id < 8 && line_complete(self@, id as int)
                && m == self@[line_cells(id as int).0],
    {
        let c = &self.cells;
        if c[0] != Mark::Empty && c[0] == c[1] && c[1] == c[2] {
            proof { lemma_first_line_between(self@, 0, 0) };
            Outcome::Line(c[0], 0)
        } else if c[3] != Mark::Empty && c[3] == c[4] && c[4] == c[5] {
            proof { lemma_first_line_between(self@, 0, 1) };
            Outcome::Line(c[3], 1)
        } else if c[6] != Mark::Empty && c[6] == c[7] && c[7] == c[8] {
            proof { lemma_first_line_between(self@, 0, 2) };
            Outcome::Line(c[6], 2)
        } else if c[0] != Mark::Empty && c[0] == c[3] && c[3] == c[6] {
            proof { lemma_first_line_between(self@, 0, 3) };
            Outcome::Line(c[0], 3)
        } else if c[1] != Mark::Empty && c[1] == c[4] && c[4] == c[7] {
            proof { lemma_first_line_between(self@, 0, 4) };
            Outcome::Line(c[1], 4)
        } else if c[2] != Mark::Empty && c[2] == c[5] && c[5] == c[8] {
            proof { lemma_first_line_between(self@, 0, 5) };
            Outcome::Line(c[2], 5)
        } else if c[0] != Mark::Empty && c[0] == c[4] && c[4] == c[8] {
            proof { lemma_first_line_between(self@, 0, 6) };
            Outcome::Line(c[0], 6)
        } else if c[2] != Mark::Empty && c[2] == c[4] && c[4] == c[6] {
            proof { lemma_first_line_between(self@, 0, 7) };
            Outcome::Line(c[2], 7)
        } else {
            proof { lemma_no_line_from(self@, 0) };
            let mut i: usize = 0;
            let mut any_empty = false;
            while i < 9
                invariant
                    self.wf(),
                    i <= 9,
                    any_empty ==> !board_full(self@),
                    !any_empty ==> forall|j: int| 0 <= j < i ==> self@[j] != Mark::Empty,
                decreases 9 - i,
            {
                if self.cells[i] == Mark::Empty {
                    any_empty = true;
                }
                i += 1;
            }
            if any_empty {
                Outcome::Ongoing
            } else {
                Outcome::Draw
            }
        }
    }
}

} // verus!
