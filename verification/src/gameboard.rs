//! The board as it is stored, and the operations that change it.

use std::collections::BTreeSet;
use vstd::prelude::*;
use crate::input::{key_action, Action, Event, InputMode, Key, MouseButton};
use crate::model::{in_board, BoardModel, CellModel};
use crate::rules::{lemma_solved_iff_complete, Group};

verus! {

/// Number of rows and of columns.
pub const SIZE: usize = 9;

/// One stored cell.
#[derive(Clone, Copy)]
struct Cell {
    /// Zero when no digit is written.
    digit: u8,
    /// Which digits are pencil-marked, the mark for `d` at index `d - 1`.
    notes: [bool; 9],
}

impl View for Cell {
    type V = CellModel;

    closed spec fn view(&self) -> CellModel {
        CellModel { digit: self.digit as nat, notes: self.notes@ }
    }
}

impl Default for Cell {
    fn default() -> (cell: Self)
        ensures
            cell@ == CellModel::empty(),
    {
        let cell = Self { digit: 0, notes: [false; 9] };
        assert(cell.notes@ =~= Seq::new(9, |i: int| false));
        cell
    }
}

/// The 9×9 board and the selected cell.
pub struct Gameboard {
    /// Rows from the top, each row from the left.
    cells: [[Cell; SIZE]; SIZE],
    /// `[row, column]` of the selected cell.
    selected_cell: Option<[usize; 2]>,
}

impl View for Gameboard {
    type V = BoardModel;

    closed spec fn view(&self) -> BoardModel {
        BoardModel {
            cells: Seq::new(9, |r: int| Seq::new(9, |c: int| self.cells[r][c]@)),
            selected: match self.selected_cell {
                Some(ind) => Some((ind[0] as nat, ind[1] as nat)),
                None => None,
            },
        }
    }
}

impl Gameboard {
    /// The selection, if there is one, lies on the board.
    #[verifier::type_invariant]
    pub closed spec fn well_formed(&self) -> bool {
        self.selected_cell matches Some(ind) ==> ind[0] < SIZE && ind[1] < SIZE
    }

    /// The model of a board is well-formed.
    pub proof fn lemma_view_wf(&self)
        requires
            self.well_formed(),
        ensures
            self@.wf(),
    {
    }

    /// An empty board with nothing selected.
    pub fn new() -> (board: Self)
        ensures
            board@ == BoardModel::empty(),
    {
        let board = Self { cells: [[Cell::default(); SIZE]; SIZE], selected_cell: None };
        assert(board@.cells =~~= BoardModel::empty().cells);
        board
    }

    /// The digit written in the cell at `ind = [row, column]`, `None` for an
    /// empty cell.
    pub fn get_digit(&self, ind: [usize; 2]) -> (digit: Option<u8>)
        requires
            ind[0] < SIZE,
            ind[1] < SIZE,
        ensures
            digit matches Some(d) ==> d != 0,
            self@.get_digit(ind[0] as int, ind[1] as int) == match digit {
                Some(d) => Some(d as nat),
                None => None,
            },
    {
        let digit = self.cells[ind[0]][ind[1]].digit;
        if digit == 0 {
            None
        } else {
            Some(digit)
        }
    }

    /// The note flags of the cell at `ind = [row, column]`.
    pub fn get_notes(&self, ind: [usize; 2]) -> (notes: [bool; 9])
        requires
            ind[0] < SIZE,
            ind[1] < SIZE,
        ensures
            notes@ == self@.notes(ind[0] as int, ind[1] as int),
    {
        self.cells[ind[0]][ind[1]].notes
    }

    /// The selected cell as `[row, column]`, `None` while nothing is selected.
    pub fn selected_cell(&self) -> (selected: Option<[usize; 2]>)
        ensures
            self@.selected == match selected {
                Some(ind) => Some((ind[0] as nat, ind[1] as nat)),
                None => None,
            },
            selected matches Some(ind) ==> ind[0] < SIZE && ind[1] < SIZE,
    {
        proof {
            use_type_invariant(self);
        }
        self.selected_cell
    }

    /// Writes `val` in the cell at `ind = [row, column]`; zero empties it.
    /// Nothing is checked against the rules of the game.
    pub fn set(&mut self, ind: [usize; 2], val: u8)
        requires
            ind[0] < SIZE,
            ind[1] < SIZE,
        ensures
            final(self)@ == old(self)@.set_digit(ind[0] as int, ind[1] as int, val as nat),
    {
        proof {
            use_type_invariant(&*self);
        }
        self.cells[ind[0]][ind[1]].digit = val;
        assert(self@.cells =~~= old(self)@.set_digit(
            ind[0] as int,
            ind[1] as int,
            val as nat,
        ).cells);
    }

    /// Flips the note for digit `val` in the cell at `ind = [row, column]`.
    pub fn note(&mut self, ind: [usize; 2], val: u8)
        requires
            ind[0] < SIZE,
            ind[1] < SIZE,
            1 <= val <= 9,
        ensures
            final(self)@ == old(self)@.toggle_note(ind[0] as int, ind[1] as int, val as nat),
    {
        proof {
            use_type_invariant(&*self);
        }
        let i = (val - 1) as usize;
        let flag = self.cells[ind[0]][ind[1]].notes[i];
        self.cells[ind[0]][ind[1]].notes[i] = !flag;
        assert(self@.cells =~~= old(self)@.toggle_note(
            ind[0] as int,
            ind[1] as int,
            val as nat,
        ).cells);
    }

    /// The digit stored in the `i`-th cell of group `g`.
    spec fn stored(&self, g: Group, i: int) -> u8 {
        self.cells[g.cell(i).0][g.cell(i).1].digit
    }

    /// Whether group `g` passes the check: no digit stands in it twice and,
    /// where `reject_empty` is set, none of its cells is empty. The cells are
    /// visited in the group's order, and `occurrences` holds the digits seen.
    fn group_passes(
        &self,
        g: Group,
        reject_empty: bool,
        occurrences: &mut BTreeSet<u8>,
    ) -> (ok: bool)
        requires
            g.valid(),
        ensures
            ok == (self@.distinct_in(g) && (reject_empty ==> self@.filled_in(g))),
    {
        occurrences.clear();
        for i in 0..SIZE
            invariant
                g.valid(),
                forall|k: int| 0 <= k < 9 ==> #[trigger] self.stored(g, k) == self@.group_digit(g, k),
                forall|k: int| 0 <= k < i ==> occurrences@.contains(#[trigger] self.stored(g, k)),
                forall|d: u8|
                    occurrences@.contains(d) ==> exists|k: int|
                        0 <= k < i && #[trigger] self.stored(g, k) == d,
                forall|a: int, b: int|
                    0 <= a < b < i ==> #[trigger] self.stored(g, a) != #[trigger] self.stored(g, b),
                reject_empty ==> forall|k: int| 0 <= k < i ==> #[trigger] self.stored(g, k) != 0,
        {
            let ind = g.cell_at(i);
            let digit = self.cells[ind[0]][ind[1]].digit;
            assert(digit == self.stored(g, i as int));
            if (reject_empty && digit == 0) || occurrences.contains(&digit) {
                return false;
            }
            occurrences.insert(digit);
        }
        proof {
            assert forall|a: int, b: int| 0 <= a < b < 9 implies #[trigger] self@.group_digit(g, a)
                != #[trigger] self@.group_digit(g, b) by {
                assert(self.stored(g, a) != self.stored(g, b));
            }
            if reject_empty {
                assert forall|k: int| 0 <= k < 9 implies #[trigger] self@.group_digit(g, k)
                    != 0 by {
                    assert(self.stored(g, k) != 0);
                }
            }
        }
        true
    }

    /// Whether the board is solved. Rows are checked first, for empty cells
    /// and repeated digits; then columns and sections, for repeated digits.
    /// The first group that fails ends the check.
    pub fn is_solved(&self) -> (solved: bool)
        ensures
            solved == self@.is_solved(),
    {
        let mut occurrences: BTreeSet<u8> = BTreeSet::new();
        for row in 0..SIZE
            invariant
                forall|r: usize|
                    r < row ==> #[trigger] self@.distinct_in(Group::Row(r)) && self@.filled_in(
                        Group::Row(r),
                    ),
        {
            if !self.group_passes(Group::Row(row), true, &mut occurrences) {
                return false;
            }
        }
        for column in 0..SIZE
            invariant
                forall|c: usize| c < column ==> #[trigger] self@.distinct_in(Group::Column(c)),
        {
            if !self.group_passes(Group::Column(column), false, &mut occurrences) {
                return false;
            }
        }
        for section in 0..SIZE
            invariant
                forall|s: usize| s < section ==> #[trigger] self@.distinct_in(Group::Section(s)),
        {
            if !self.group_passes(Group::Section(section), false, &mut occurrences) {
                return false;
            }
        }
        proof {
            assert forall|g: Group| g.valid() implies #[trigger] self@.distinct_in(g) by {
                match g {
                    Group::Row(r) => assert(self@.distinct_in(Group::Row(r))),
                    Group::Column(c) => assert(self@.distinct_in(Group::Column(c))),
                    Group::Section(s) => assert(self@.distinct_in(Group::Section(s))),
                }
            }
            assert forall|r: int, c: int| in_board(r, c) implies #[trigger] self@.digit(r, c)
                != 0 by {
                let g = Group::Row(r as usize);
                assert(self@.distinct_in(g) && self@.filled_in(g));
                assert(self@.group_digit(g, c) != 0);
            }
        }
        true
    }

    /// Selects the cell at `ind = [row, column]`, whatever was selected before.
    pub fn select(&mut self, ind: [usize; 2])
        requires
            ind[0] < SIZE,
            ind[1] < SIZE,
        ensures
            final(self)@ == old(self)@.select(ind[0] as nat, ind[1] as nat),
    {
        self.selected_cell = Some(ind);
    }
}

/// Where the board lies in the window.
#[derive(Clone, Copy, Debug)]
pub struct GameboardViewSettigs {
    /// The pixel `[x, y]` of the board's top-left corner.
    pub position: [i32; 2],
    /// The length in pixels of the board's edge.
    pub size: u32,
}

impl Default for GameboardViewSettigs {
    /// A board of 400 pixels, 56 pixels from the window's left and top edge.
    fn default() -> (settings: Self)
        ensures
            settings.position[0] == 56,
            settings.position[1] == 56,
            settings.size == 400,
    {
        Self { position: [56; 2], size: 400 }
    }
}

impl GameboardViewSettigs {
    /// The cell `(row, column)` that the pixel `(x, y)` lies in: none outside
    /// the board's square, whose right and bottom edges are left out; inside
    /// it, the offset from the top-left corner scaled by nine over the
    /// board's size and rounded down, the row from `y` and the column from `x`.
    pub open spec fn cell_under(&self, x: int, y: int) -> Option<(nat, nat)> {
        let dx = x - self.position[0];
        let dy = y - self.position[1];
        if 0 <= dx < self.size && 0 <= dy < self.size {
            Some(((dy * 9 / (self.size as int)) as nat, (dx * 9 / (self.size as int)) as nat))
        } else {
            None
        }
    }

    /// The cell `[row, column]` under the pixel `cursor = [x, y]`, `None`
    /// where the pixel is off the board.
    pub fn cell_at(&self, cursor: [i32; 2]) -> (cell: Option<[usize; 2]>)
        ensures
            coordinate(cell) == self.cell_under(cursor[0] as int, cursor[1] as int),
            cell matches Some(ind) ==> ind[0] < SIZE && ind[1] < SIZE,
    {
        let dx: i64 = cursor[0] as i64 - self.position[0] as i64;
        let dy: i64 = cursor[1] as i64 - self.position[1] as i64;
        let size: i64 = self.size as i64;
        if dx >= 0 && dx < size && dy >= 0 && dy < size {
            proof {
                lemma_scaled_offset_on_board(dx as int, size as int);
                lemma_scaled_offset_on_board(dy as int, size as int);
            }
            let row = (dy * 9 / size) as usize;
            let col = (dx * 9 / size) as usize;
            Some([row, col])
        } else {
            None
        }
    }
}

/// An offset within the board's edge, scaled to cells, is one of the nine.
proof fn lemma_scaled_offset_on_board(offset: int, size: int)
    requires
        0 <= offset < size,
    ensures
        0 <= offset * 9 / size < 9,
{
    assert(0 <= offset * 9 / size < 9) by (nonlinear_arith)
        requires
            0 <= offset < size,
    ;
}

/// A coordinate as the model writes it.
pub open spec fn coordinate(ind: Option<[usize; 2]>) -> Option<(nat, nat)> {
    match ind {
        Some(ind) => Some((ind[0] as nat, ind[1] as nat)),
        None => None,
    }
}

/// The board's presentation: its place in the window, and the glyph of each
/// digit.
pub struct GameboardView {
    settings: GameboardViewSettigs,
}

impl View for GameboardView {
    type V = GameboardViewSettigs;

    closed spec fn view(&self) -> GameboardViewSettigs {
        self.settings
    }
}

impl GameboardView {
    /// A presentation of the board at the place that `settings` gives.
    pub fn new(settings: GameboardViewSettigs) -> (view: Self)
        ensures
            view@ == settings,
    {
        Self { settings }
    }

    /// Where the board lies in the window.
    pub fn settings(&self) -> (settings: &GameboardViewSettigs)
        ensures
            *settings == self@,
    {
        &self.settings
    }

    /// The character that shows `val`: the digit's own for one to nine, and
    /// `'0'` for anything else.
    pub fn get_char(val: u8) -> (c: char)
        ensures
            c as int == if 1 <= val <= 9 {
                '0' as int + val
            } else {
                '0' as int
            },
    {
        match val {
            1 => '1',
            2 => '2',
            3 => '3',
            4 => '4',
            5 => '5',
            6 => '6',
            7 => '7',
            8 => '8',
            9 => '9',
            _ => '0',
        }
    }
}

/// What the board's controller knows: the board, where it lies, where the
/// pointer was last seen, and whether shift is held.
pub struct ControllerModel {
    pub board: BoardModel,
    pub settings: GameboardViewSettigs,
    /// The pixel `(x, y)` of the pointer.
    pub cursor: (int, int),
    pub shift_pressed: bool,
}

impl ControllerModel {
    /// The state after one event.
    ///
    /// A pointer move is remembered. A press of the primary button selects the
    /// cell under the pointer, if there is one. A key press first notes
    /// whether shift went down, then carries out on the selected cell, if
    /// there is one, what the key asks for in the mode that shift now selects.
    /// Releasing shift ends note mode. Everything else changes nothing.
    pub open spec fn step(self, e: Event) -> ControllerModel {
        match e {
            Event::PointerMoved { x, y } => ControllerModel { cursor: (x as int, y as int), ..self },
            Event::PointerPressed(button) => match (
                button,
                self.settings.cell_under(self.cursor.0, self.cursor.1),
            ) {
                (MouseButton::Left, Some(cell)) => ControllerModel {
                    board: self.board.select(cell.0, cell.1),
                    ..self
                },
                _ => self,
            },
            Event::KeyPressed(key) => {
                let shift_pressed = self.shift_pressed || key == Key::LShift;
                let board = match self.board.selected {
                    Some(cell) => self.board.apply(
                        cell.0 as int,
                        cell.1 as int,
                        key_action(InputMode::from_shift(shift_pressed), key),
                    ),
                    None => self.board,
                };
                ControllerModel { board, shift_pressed, ..self }
            },
            Event::KeyReleased(key) => ControllerModel {
                shift_pressed: self.shift_pressed && key != Key::LShift,
                ..self
            },
        }
    }

    /// The state after the events of `events`, taken in order.
    pub open spec fn run(self, events: Seq<Event>) -> ControllerModel
        decreases events.len(),
    {
        if events.len() == 0 {
            self
        } else {
            self.run(events.drop_last()).step(events.last())
        }
    }
}

/// The cell under a pixel, if there is one, is a cell of the board.
pub proof fn lemma_cell_under_on_board(settings: GameboardViewSettigs, x: int, y: int)
    ensures
        settings.cell_under(x, y) matches Some(cell) ==> in_board(cell.0 as int, cell.1 as int),
{
    let dx = x - settings.position[0];
    let dy = y - settings.position[1];
    if 0 <= dx < settings.size && 0 <= dy < settings.size {
        lemma_scaled_offset_on_board(dx, settings.size as int);
        lemma_scaled_offset_on_board(dy, settings.size as int);
    }
}

/// No event moves or resizes the board, and none makes a well-formed board
/// ill-formed.
pub proof fn lemma_step_keeps_wf(m: ControllerModel, e: Event)
    requires
        m.board.wf(),
    ensures
        m.step(e).board.wf(),
        m.step(e).settings == m.settings,
{
    lemma_cell_under_on_board(m.settings, m.cursor.0, m.cursor.1);
}

/// No event writes a digit above nine.
pub proof fn lemma_step_keeps_digits_in_range(m: ControllerModel, e: Event)
    requires
        m.board.wf(),
        m.board.digits_in_range(),
    ensures
        m.step(e).board.digits_in_range(),
{
    let after = m.step(e).board;
    assert forall|r: int, c: int| in_board(r, c) implies #[trigger] after.digit(r, c) <= 9 by {
        assert(m.board.digit(r, c) <= 9);
    }
}

/// However a game goes, the board stays well-formed and in place, and holds
/// no digit above nine. On such a board the check finds exactly the boards on
/// which every row, column and section holds each of one to nine once.
pub proof fn lemma_run_keeps_board_sound(m: ControllerModel, events: Seq<Event>)
    requires
        m.board.wf(),
        m.board.digits_in_range(),
    ensures
        m.run(events).board.wf(),
        m.run(events).board.digits_in_range(),
        m.run(events).settings == m.settings,
        m.run(events).board.is_solved() <==> m.run(events).board.complete(),
    decreases events.len(),
{
    if events.len() > 0 {
        let before = m.run(events.drop_last());
        lemma_run_keeps_board_sound(m, events.drop_last());
        lemma_step_keeps_wf(before, events.last());
        lemma_step_keeps_digits_in_range(before, events.last());
    }
    lemma_solved_iff_complete(m.run(events).board);
}

/// A selection, once made, is never cleared; and the only event that makes
/// one where there was none is a press of the primary button with the pointer
/// over a cell of the board.
pub proof fn lemma_selection_lasts(m: ControllerModel, e: Event)
    ensures
        m.board.selected is Some ==> m.step(e).board.selected is Some,
        m.board.selected is None && m.step(e).board.selected is Some ==> {
            &&& e == Event::PointerPressed(MouseButton::Left)
            &&& m.step(e).board.selected == m.settings.cell_under(m.cursor.0, m.cursor.1)
        },
{
}

/// Only a key press changes what the cells hold, and only in the selected
/// cell: every other cell stays as it was, whatever the event.
pub proof fn lemma_step_frame(m: ControllerModel, e: Event, row: int, col: int)
    requires
        m.board.wf(),
        in_board(row, col),
        !(e is KeyPressed) || m.board.selected != Some((row as nat, col as nat)),
    ensures
        m.step(e).board.cells[row][col] == m.board.cells[row][col],
{
}

/// Turns input events into changes of the board.
pub struct GameboardController {
    gameboard: Gameboard,
    gameboard_view: GameboardView,
    /// The pixel `[x, y]` where the pointer was last seen.
    cursor_pos: [i32; 2],
    shift_pressed: bool,
}

impl View for GameboardController {
    type V = ControllerModel;

    closed spec fn view(&self) -> ControllerModel {
        ControllerModel {
            board: self.gameboard@,
            settings: self.gameboard_view@,
            cursor: (self.cursor_pos[0] as int, self.cursor_pos[1] as int),
            shift_pressed: self.shift_pressed,
        }
    }
}

impl GameboardController {
    /// A controller for `gameboard`, with the pointer at the window's origin
    /// and shift not held.
    pub fn new(gameboard: Gameboard, gameboard_view: GameboardView) -> (controller: Self)
        ensures
            controller@ == (ControllerModel {
                board: gameboard@,
                settings: gameboard_view@,
                cursor: (0, 0),
                shift_pressed: false,
            }),
    {
        Self { gameboard, gameboard_view, cursor_pos: [0; 2], shift_pressed: false }
    }

    /// The board.
    pub fn gameboard(&self) -> (gameboard: &Gameboard)
        ensures
            gameboard@ == self@.board,
    {
        &self.gameboard
    }

    /// The board's presentation.
    pub fn gameboard_view(&self) -> (gameboard_view: &GameboardView)
        ensures
            gameboard_view@ == self@.settings,
    {
        &self.gameboard_view
    }

    /// The pixel `[x, y]` where the pointer was last seen.
    pub fn cursor_pos(&self) -> (cursor: [i32; 2])
        ensures
            (cursor[0] as int, cursor[1] as int) == self@.cursor,
    {
        self.cursor_pos
    }

    /// How a digit key is read at present.
    pub fn mode(&self) -> (mode: InputMode)
        ensures
            mode == InputMode::from_shift(self@.shift_pressed),
    {
        InputMode::from_shift(self.shift_pressed)
    }

    /// Whether the board is solved.
    pub fn check(&self) -> (solved: bool)
        ensures
            solved == self@.board.is_solved(),
    {
        self.gameboard.is_solved()
    }

    /// Takes one event and changes the state as [`ControllerModel::step`]
    /// says.
    pub fn handle_event(&mut self, e: &Event)
        ensures
            final(self)@ == old(self)@.step(*e),
    {
        match *e {
            Event::PointerMoved { x, y } => {
                self.cursor_pos = [x, y];
            },
            Event::PointerPressed(button) => {
                if button == MouseButton::Left {
                    if let Some(ind) = self.gameboard_view.settings.cell_at(self.cursor_pos) {
                        self.gameboard.select(ind);
                    }
                }
            },
            Event::KeyPressed(key) => {
                if key == Key::LShift {
                    self.shift_pressed = true;
                }
                if let Some(ind) = self.gameboard.selected_cell() {
                    match key_action(InputMode::from_shift(self.shift_pressed), key) {
                        Action::SetDigit(d) => self.gameboard.set(ind, d),
                        Action::ToggleNote(d) => self.gameboard.note(ind, d),
                        Action::Ignore => {},
                    }
                }
            },
            Event::KeyReleased(key) => {
                if key == Key::LShift {
                    self.shift_pressed = false;
                }
            },
        }
    }
}

} // verus!
