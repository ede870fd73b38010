use sudoku::gameboard::{
    Gameboard, GameboardController, GameboardView, GameboardViewSettigs, SIZE,
};
use sudoku::input::{key_action, Action, Event, InputMode, Key, MouseButton};

const DIGIT_KEYS: [Key; 9] =
    [Key::D1, Key::D2, Key::D3, Key::D4, Key::D5, Key::D6, Key::D7, Key::D8, Key::D9];

const SOLVED: [[u8; 9]; 9] = [
    [5, 3, 4, 6, 7, 8, 9, 1, 2],
    [6, 7, 2, 1, 9, 5, 3, 4, 8],
    [1, 9, 8, 3, 4, 2, 5, 6, 7],
    [8, 5, 9, 7, 6, 1, 4, 2, 3],
    [4, 2, 6, 8, 5, 3, 7, 9, 1],
    [7, 1, 3, 9, 2, 4, 8, 5, 6],
    [9, 6, 1, 5, 3, 7, 2, 8, 4],
    [2, 8, 7, 4, 1, 9, 6, 3, 5],
    [3, 4, 5, 2, 8, 6, 1, 7, 9],
];

fn controller() -> GameboardController {
    GameboardController::new(Gameboard::new(), GameboardView::new(GameboardViewSettigs::default()))
}

/// A pixel well inside the cell at `[row, col]` of the default layout.
fn pixel_in(row: usize, col: usize) -> Event {
    Event::PointerMoved { x: 56 + 45 * col as i32 + 20, y: 56 + 45 * row as i32 + 20 }
}

fn click(controller: &mut GameboardController, row: usize, col: usize) {
    controller.handle_event(&pixel_in(row, col));
    controller.handle_event(&Event::PointerPressed(MouseButton::Left));
}

#[test]
fn new_controller_starts_at_rest() {
    let controller = controller();
    assert_eq!(controller.cursor_pos(), [0, 0]);
    assert_eq!(controller.mode(), InputMode::Digit);
    assert_eq!(controller.gameboard().selected_cell(), None);
    assert_eq!(controller.gameboard_view().settings().size, 400);
    assert!(!controller.check());
}

#[test]
fn pointer_press_selects_the_cell_under_it() {
    let mut controller = controller();
    // y - 56 = 150 lies in row 3, x - 56 = 200 lies in column 4.
    controller.handle_event(&Event::PointerMoved { x: 256, y: 206 });
    assert_eq!(controller.gameboard().selected_cell(), None);
    controller.handle_event(&Event::PointerPressed(MouseButton::Left));
    assert_eq!(controller.gameboard().selected_cell(), Some([3, 4]));
}

#[test]
fn pointer_row_comes_from_y_and_column_from_x() {
    let mut controller = controller();
    controller.handle_event(&Event::PointerMoved { x: 56 + 399, y: 56 });
    controller.handle_event(&Event::PointerPressed(MouseButton::Left));
    assert_eq!(controller.gameboard().selected_cell(), Some([0, 8]));
    controller.handle_event(&Event::PointerMoved { x: 56, y: 56 + 399 });
    controller.handle_event(&Event::PointerPressed(MouseButton::Left));
    assert_eq!(controller.gameboard().selected_cell(), Some([8, 0]));
}

#[test]
fn pointer_move_is_remembered() {
    let mut controller = controller();
    controller.handle_event(&Event::PointerMoved { x: -7, y: 1234 });
    assert_eq!(controller.cursor_pos(), [-7, 1234]);
    controller.handle_event(&Event::KeyPressed(Key::D1));
    controller.handle_event(&Event::PointerPressed(MouseButton::Other));
    assert_eq!(controller.cursor_pos(), [-7, 1234]);
}

#[test]
fn cell_at_scales_the_offset_by_nine_over_size() {
    let settings = GameboardViewSettigs::default();
    // 44 * 9 / 400 = 0 and 45 * 9 / 400 = 1.
    assert_eq!(settings.cell_at([56 + 44, 56]), Some([0, 0]));
    assert_eq!(settings.cell_at([56 + 45, 56]), Some([0, 1]));
    assert_eq!(settings.cell_at([56, 56 + 88]), Some([1, 0]));
    assert_eq!(settings.cell_at([56, 56 + 89]), Some([2, 0]));
    assert_eq!(settings.cell_at([56 + 355, 56 + 356]), Some([8, 7]));
    let small = GameboardViewSettigs { position: [10, 20], size: 9 };
    for step in 0..9 {
        assert_eq!(small.cell_at([10 + step, 20 + 8 - step]), Some([8 - step as usize, step as usize]));
    }
}

#[test]
fn cell_at_leaves_out_the_right_and_bottom_edge() {
    let settings = GameboardViewSettigs::default();
    assert_eq!(settings.cell_at([56, 56]), Some([0, 0]));
    assert_eq!(settings.cell_at([455, 455]), Some([8, 8]));
    assert_eq!(settings.cell_at([456, 455]), None);
    assert_eq!(settings.cell_at([455, 456]), None);
    assert_eq!(settings.cell_at([55, 56]), None);
    assert_eq!(settings.cell_at([56, 55]), None);
}

#[test]
fn cell_at_on_a_board_without_size_is_none() {
    let settings = GameboardViewSettigs { position: [0, 0], size: 0 };
    assert_eq!(settings.cell_at([0, 0]), None);
}

#[test]
fn cell_at_at_the_ends_of_the_pixel_range() {
    let wide = GameboardViewSettigs { position: [i32::MIN, i32::MIN], size: u32::MAX };
    assert_eq!(wide.cell_at([i32::MIN, i32::MIN]), Some([0, 0]));
    assert_eq!(wide.cell_at([i32::MAX - 1, i32::MAX - 1]), Some([8, 8]));
    assert_eq!(wide.cell_at([i32::MAX, 0]), None);
    let far = GameboardViewSettigs { position: [i32::MAX, i32::MAX], size: 400 };
    assert_eq!(far.cell_at([i32::MIN, i32::MIN]), None);
    assert_eq!(far.cell_at([i32::MAX, i32::MAX]), Some([0, 0]));
}

#[test]
fn press_outside_the_board_keeps_the_selection() {
    let mut controller = controller();
    controller.handle_event(&Event::PointerMoved { x: 10, y: 10 });
    controller.handle_event(&Event::PointerPressed(MouseButton::Left));
    assert_eq!(controller.gameboard().selected_cell(), None);
    click(&mut controller, 2, 2);
    controller.handle_event(&Event::PointerMoved { x: 500, y: 250 });
    controller.handle_event(&Event::PointerPressed(MouseButton::Left));
    assert_eq!(controller.gameboard().selected_cell(), Some([2, 2]));
}

#[test]
fn press_of_another_button_selects_nothing() {
    let mut controller = controller();
    controller.handle_event(&pixel_in(1, 1));
    controller.handle_event(&Event::PointerPressed(MouseButton::Other));
    assert_eq!(controller.gameboard().selected_cell(), None);
}

#[test]
fn later_press_replaces_the_selection() {
    let mut controller = controller();
    click(&mut controller, 0, 0);
    click(&mut controller, 8, 3);
    assert_eq!(controller.gameboard().selected_cell(), Some([8, 3]));
}

#[test]
fn shift_then_digit_toggles_the_note() {
    let mut controller = controller();
    click(&mut controller, 0, 0);
    controller.handle_event(&Event::KeyPressed(Key::LShift));
    controller.handle_event(&Event::KeyPressed(Key::D5));
    let mut expected = [false; 9];
    expected[4] = true;
    assert_eq!(controller.gameboard().get_notes([0, 0]), expected);
    assert_eq!(controller.gameboard().get_digit([0, 0]), None);
    controller.handle_event(&Event::KeyPressed(Key::D5));
    assert_eq!(controller.gameboard().get_notes([0, 0]), [false; 9]);
}

#[test]
fn digit_without_shift_sets_the_digit() {
    let mut controller = controller();
    click(&mut controller, 0, 0);
    controller.handle_event(&Event::KeyPressed(Key::LShift));
    controller.handle_event(&Event::KeyPressed(Key::D2));
    controller.handle_event(&Event::KeyReleased(Key::LShift));
    let notes = controller.gameboard().get_notes([0, 0]);
    controller.handle_event(&Event::KeyPressed(Key::D5));
    assert_eq!(controller.gameboard().get_digit([0, 0]), Some(5));
    assert_eq!(controller.gameboard().get_notes([0, 0]), notes);
    assert_eq!(notes, [false, true, false, false, false, false, false, false, false]);
}

#[test]
fn each_digit_key_writes_its_digit() {
    let mut controller = controller();
    click(&mut controller, 4, 4);
    for (i, key) in DIGIT_KEYS.iter().enumerate() {
        controller.handle_event(&Event::KeyPressed(*key));
        assert_eq!(controller.gameboard().get_digit([4, 4]), Some(i as u8 + 1));
    }
}

#[test]
fn each_digit_key_marks_its_note_under_shift() {
    let mut controller = controller();
    click(&mut controller, 4, 4);
    controller.handle_event(&Event::KeyPressed(Key::LShift));
    for (i, key) in DIGIT_KEYS.iter().enumerate() {
        controller.handle_event(&Event::KeyPressed(*key));
        assert!(controller.gameboard().get_notes([4, 4])[i]);
    }
    assert_eq!(controller.gameboard().get_notes([4, 4]), [true; 9]);
    assert_eq!(controller.gameboard().get_digit([4, 4]), None);
}

#[test]
fn shift_press_and_release_switch_the_mode() {
    let mut controller = controller();
    assert_eq!(controller.mode(), InputMode::Digit);
    controller.handle_event(&Event::KeyPressed(Key::LShift));
    assert_eq!(controller.mode(), InputMode::Note);
    controller.handle_event(&Event::KeyPressed(Key::LShift));
    assert_eq!(controller.mode(), InputMode::Note);
    controller.handle_event(&Event::KeyReleased(Key::D1));
    assert_eq!(controller.mode(), InputMode::Note);
    controller.handle_event(&Event::KeyReleased(Key::LShift));
    assert_eq!(controller.mode(), InputMode::Digit);
    controller.handle_event(&Event::KeyReleased(Key::LShift));
    assert_eq!(controller.mode(), InputMode::Digit);
}

#[test]
fn shift_alone_changes_no_cell() {
    let mut controller = controller();
    click(&mut controller, 3, 3);
    controller.handle_event(&Event::KeyPressed(Key::D4));
    controller.handle_event(&Event::KeyPressed(Key::LShift));
    controller.handle_event(&Event::KeyReleased(Key::LShift));
    assert_eq!(controller.gameboard().get_digit([3, 3]), Some(4));
    assert_eq!(controller.gameboard().get_notes([3, 3]), [false; 9]);
}

#[test]
fn escape_clears_the_digit_in_either_mode() {
    let mut controller = controller();
    click(&mut controller, 6, 1);
    controller.handle_event(&Event::KeyPressed(Key::D9));
    controller.handle_event(&Event::KeyPressed(Key::Escape));
    assert_eq!(controller.gameboard().get_digit([6, 1]), None);
    controller.handle_event(&Event::KeyPressed(Key::D9));
    controller.handle_event(&Event::KeyPressed(Key::LShift));
    controller.handle_event(&Event::KeyPressed(Key::D3));
    controller.handle_event(&Event::KeyPressed(Key::Escape));
    assert_eq!(controller.gameboard().get_digit([6, 1]), None);
    assert!(controller.gameboard().get_notes([6, 1])[2]);
}

#[test]
fn keys_without_a_selection_do_nothing() {
    let mut controller = controller();
    controller.handle_event(&Event::KeyPressed(Key::D5));
    controller.handle_event(&Event::KeyPressed(Key::LShift));
    controller.handle_event(&Event::KeyPressed(Key::D5));
    controller.handle_event(&Event::KeyPressed(Key::Escape));
    for row in 0..SIZE {
        for col in 0..SIZE {
            assert_eq!(controller.gameboard().get_digit([row, col]), None);
            assert_eq!(controller.gameboard().get_notes([row, col]), [false; 9]);
        }
    }
    assert_eq!(controller.mode(), InputMode::Note);
}

#[test]
fn other_keys_are_ignored() {
    let mut controller = controller();
    click(&mut controller, 2, 5);
    controller.handle_event(&Event::KeyPressed(Key::D6));
    controller.handle_event(&Event::KeyPressed(Key::Other));
    controller.handle_event(&Event::KeyReleased(Key::Other));
    controller.handle_event(&Event::KeyReleased(Key::D6));
    controller.handle_event(&Event::KeyReleased(Key::Escape));
    assert_eq!(controller.gameboard().get_digit([2, 5]), Some(6));
    assert_eq!(controller.gameboard().get_notes([2, 5]), [false; 9]);
    assert_eq!(controller.gameboard().selected_cell(), Some([2, 5]));
    assert_eq!(controller.mode(), InputMode::Digit);
}

#[test]
fn keys_change_the_selected_cell_only() {
    let mut controller = controller();
    click(&mut controller, 7, 7);
    controller.handle_event(&Event::KeyPressed(Key::D1));
    click(&mut controller, 7, 8);
    controller.handle_event(&Event::KeyPressed(Key::D2));
    assert_eq!(controller.gameboard().get_digit([7, 7]), Some(1));
    assert_eq!(controller.gameboard().get_digit([7, 8]), Some(2));
    assert_eq!(controller.gameboard().get_digit([8, 7]), None);
}

#[test]
fn key_action_in_digit_mode() {
    for (i, key) in DIGIT_KEYS.iter().enumerate() {
        assert_eq!(key_action(InputMode::Digit, *key), Action::SetDigit(i as u8 + 1));
    }
    assert_eq!(key_action(InputMode::Digit, Key::Escape), Action::SetDigit(0));
    assert_eq!(key_action(InputMode::Digit, Key::LShift), Action::Ignore);
    assert_eq!(key_action(InputMode::Digit, Key::Other), Action::Ignore);
}

#[test]
fn key_action_in_note_mode() {
    for (i, key) in DIGIT_KEYS.iter().enumerate() {
        assert_eq!(key_action(InputMode::Note, *key), Action::ToggleNote(i as u8 + 1));
    }
    assert_eq!(key_action(InputMode::Note, Key::Escape), Action::SetDigit(0));
    assert_eq!(key_action(InputMode::Note, Key::LShift), Action::Ignore);
    assert_eq!(key_action(InputMode::Note, Key::Other), Action::Ignore);
}

#[test]
fn key_digit_of_each_key() {
    for (i, key) in DIGIT_KEYS.iter().enumerate() {
        assert_eq!(key.digit(), Some(i as u8 + 1));
    }
    assert_eq!(Key::Escape.digit(), None);
    assert_eq!(Key::LShift.digit(), None);
    assert_eq!(Key::Other.digit(), None);
}

#[test]
fn mode_follows_shift() {
    assert_eq!(InputMode::from_shift(false), InputMode::Digit);
    assert_eq!(InputMode::from_shift(true), InputMode::Note);
}

#[test]
fn board_filled_through_events_checks_as_solved() {
    let mut controller = controller();
    for row in 0..SIZE {
        for col in 0..SIZE {
            assert!(!controller.check());
            click(&mut controller, row, col);
            assert_eq!(controller.gameboard().selected_cell(), Some([row, col]));
            controller.handle_event(&Event::KeyPressed(DIGIT_KEYS[SOLVED[row][col] as usize - 1]));
        }
    }
    assert!(controller.check());
    controller.handle_event(&Event::KeyPressed(Key::Escape));
    assert!(!controller.check());
}

#[test]
fn controller_keeps_the_board_it_was_given() {
    let mut board = Gameboard::new();
    board.set([1, 2], 3);
    board.select([1, 2]);
    let view = GameboardView::new(GameboardViewSettigs { position: [0, 0], size: 90 });
    let mut controller = GameboardController::new(board, view);
    assert_eq!(controller.gameboard().get_digit([1, 2]), Some(3));
    assert_eq!(controller.gameboard().selected_cell(), Some([1, 2]));
    assert_eq!(controller.gameboard_view().settings().position, [0, 0]);
    controller.handle_event(&Event::PointerMoved { x: 89, y: 10 });
    controller.handle_event(&Event::PointerPressed(MouseButton::Left));
    assert_eq!(controller.gameboard().selected_cell(), Some([1, 8]));
}
