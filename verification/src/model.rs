//! The mathematical model of the board and of the operations on it.
//!
//! Coordinates are `(row, column)`: rows count from the top, columns from the
//! left, both from zero.

use vstd::prelude::*;
use crate::input::Action;

verus! {

/// One cell: its digit (zero for an empty cell) and its nine note flags, the
/// flag for digit `d` at index `d - 1`.
#[verifier::ext_equal]
pub struct CellModel {
    pub digit: nat,
    pub notes: Seq<bool>,
}

/// The whole board: nine rows of nine cells, and the selected coordinate.
#[verifier::ext_equal]
pub struct BoardModel {
    pub cells: Seq<Seq<CellModel>>,
    pub selected: Option<(nat, nat)>,
}

/// Whether `(row, col)` names a cell of the board.
pub open spec fn in_board(row: int, col: int) -> bool {
    0 <= row < 9 && 0 <= col < 9
}

impl CellModel {
    /// The cell a fresh board is made of: no digit, no notes.
    pub open spec fn empty() -> CellModel {
        CellModel { digit: 0, notes: Seq::new(9, |i: int| false) }
    }
}

impl BoardModel {
    /// Nine rows of nine cells with nine notes each, and a selection that, if
    /// there is one, lies on the board.
    pub open spec fn wf(self) -> bool {
        &&& self.cells.len() == 9
        &&& forall|r: int| 0 <= r < 9 ==> (#[trigger] self.cells[r]).len() == 9
        &&& forall|r: int, c: int| in_board(r, c) ==> (#[trigger] self.cells[r][c]).notes.len() == 9
        &&& self.selected matches Some(s) ==> in_board(s.0 as int, s.1 as int)
    }

    /// The board a game starts with: every cell empty, nothing selected.
    pub open spec fn empty() -> BoardModel {
        BoardModel {
            cells: Seq::new(9, |r: int| Seq::new(9, |c: int| CellModel::empty())),
            selected: None,
        }
    }

    /// The digit stored at `(row, col)`, zero for an empty cell.
    pub open spec fn digit(self, row: int, col: int) -> nat {
        self.cells[row][col].digit
    }

    /// The note flags of the cell at `(row, col)`.
    pub open spec fn notes(self, row: int, col: int) -> Seq<bool> {
        self.cells[row][col].notes
    }

    /// The digit as a reader sees it: nothing for an empty cell.
    pub open spec fn get_digit(self, row: int, col: int) -> Option<nat> {
        if self.digit(row, col) == 0 {
            None
        } else {
            Some(self.digit(row, col))
        }
    }

    /// The board with the cell at `(row, col)` replaced by `cell`.
    pub open spec fn with_cell(self, row: int, col: int, cell: CellModel) -> BoardModel {
        BoardModel { cells: self.cells.update(row, self.cells[row].update(col, cell)), ..self }
    }

    /// The board after `val` is written at `(row, col)`. Notes and selection
    /// stay as they are.
    pub open spec fn set_digit(self, row: int, col: int, val: nat) -> BoardModel {
        self.with_cell(row, col, CellModel { digit: val, ..self.cells[row][col] })
    }

    /// The board after the note for digit `val` at `(row, col)` is flipped.
    /// The digit and the selection stay as they are.
    pub open spec fn toggle_note(self, row: int, col: int, val: nat) -> BoardModel {
        let cell = self.cells[row][col];
        self.with_cell(
            row,
            col,
            CellModel { notes: cell.notes.update(val - 1, !cell.notes[val - 1]), ..cell },
        )
    }

    /// The board with `(row, col)` selected, whatever was selected before.
    pub open spec fn select(self, row: nat, col: nat) -> BoardModel {
        BoardModel { selected: Some((row, col)), ..self }
    }

    /// The board after each coordinate of `picks` was selected in turn.
    pub open spec fn select_all(self, picks: Seq<(nat, nat)>) -> BoardModel
        decreases picks.len(),
    {
        if picks.len() == 0 {
            self
        } else {
            self.select_all(picks.drop_last()).select(picks.last().0, picks.last().1)
        }
    }

    /// The board after `action` is carried out on the cell at `(row, col)`.
    pub open spec fn apply(self, row: int, col: int, action: Action) -> BoardModel {
        match action {
            Action::SetDigit(d) => self.set_digit(row, col, d as nat),
            Action::ToggleNote(d) => self.toggle_note(row, col, d as nat),
            Action::Ignore => self,
        }
    }
}

/// Writing a digit, flipping a note and selecting a cell of the board each
/// leave a well-formed board well-formed.
pub proof fn lemma_operations_keep_wf(b: BoardModel, row: int, col: int, val: nat)
    requires
        b.wf(),
        in_board(row, col),
    ensures
        b.set_digit(row, col, val).wf(),
        1 <= val <= 9 ==> b.toggle_note(row, col, val).wf(),
        b.select(row as nat, col as nat).wf(),
{
}

/// Reading a cell after writing `val` to it gives `val`, or nothing if `val`
/// is zero; and writing the same value a second time changes nothing.
pub proof fn lemma_set_then_get(b: BoardModel, row: int, col: int, val: nat)
    requires
        b.wf(),
        in_board(row, col),
    ensures
        b.set_digit(row, col, val).get_digit(row, col) == if val == 0 {
            None
        } else {
            Some(val)
        },
        b.set_digit(row, col, val).set_digit(row, col, val) == b.set_digit(row, col, val),
{
    assert(b.set_digit(row, col, val).set_digit(row, col, val).cells =~~= b.set_digit(
        row,
        col,
        val,
    ).cells);
}

/// Writing a digit changes that cell's digit and nothing else: every other
/// cell, the cell's own notes and the selection stay as they were.
pub proof fn lemma_set_digit_frame(b: BoardModel, row: int, col: int, val: nat)
    requires
        b.wf(),
        in_board(row, col),
    ensures
        b.set_digit(row, col, val).notes(row, col) == b.notes(row, col),
        b.set_digit(row, col, val).selected == b.selected,
        forall|r: int, c: int|
            in_board(r, c) && (r, c) != (row, col) ==> #[trigger] b.set_digit(
                row,
                col,
                val,
            ).cells[r][c] == b.cells[r][c],
{
}

/// Flipping a note changes that one flag and nothing else: the cell's digit
/// and other flags, every other cell and the selection stay as they were.
pub proof fn lemma_toggle_note_frame(b: BoardModel, row: int, col: int, val: nat)
    requires
        b.wf(),
        in_board(row, col),
        1 <= val <= 9,
    ensures
        b.toggle_note(row, col, val).notes(row, col)[val - 1] == !b.notes(row, col)[val - 1],
        forall|i: int|
            0 <= i < 9 && i != val - 1 ==> #[trigger] b.toggle_note(row, col, val).notes(
                row,
                col,
            )[i] == b.notes(row, col)[i],
        b.toggle_note(row, col, val).digit(row, col) == b.digit(row, col),
        b.toggle_note(row, col, val).selected == b.selected,
        forall|r: int, c: int|
            in_board(r, c) && (r, c) != (row, col) ==> #[trigger] b.toggle_note(
                row,
                col,
                val,
            ).cells[r][c] == b.cells[r][c],
{
}

/// Flipping the same note twice gives the board back as it was.
pub proof fn lemma_toggle_note_twice(b: BoardModel, row: int, col: int, val: nat)
    requires
        b.wf(),
        in_board(row, col),
        1 <= val <= 9,
    ensures
        b.toggle_note(row, col, val).toggle_note(row, col, val) == b,
{
    assert(b.toggle_note(row, col, val).toggle_note(row, col, val).cells =~~= b.cells);
}

/// A selection replaces the one before it: after two, the board is as if
/// only the second had been made.
pub proof fn lemma_select_overwrites(b: BoardModel, first: (nat, nat), second: (nat, nat))
    ensures
        b.select(first.0, first.1).select(second.0, second.1) == b.select(second.0, second.1),
{
}

/// After any number of selections, and at least one, exactly one cell is
/// selected, the last that was picked, and the cells are as they were.
pub proof fn lemma_select_all(b: BoardModel, picks: Seq<(nat, nat)>)
    requires
        picks.len() > 0,
    ensures
        b.select_all(picks).selected == Some(picks.last()),
        b.select_all(picks).cells == b.cells,
    decreases picks.len(),
{
    if picks.len() > 1 {
        lemma_select_all(b, picks.drop_last());
    } else {
        assert(picks.drop_last().len() == 0);
        assert(b.select_all(picks.drop_last()) == b);
    }
}

} // verus!
