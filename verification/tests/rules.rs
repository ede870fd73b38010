use sudoku::gameboard::{Gameboard, SIZE};
use sudoku::rules::Group;

const SOLUTION: [[u8; 9]; 9] = [
    [5, 3, 4, 6, 7, 8, 9, 1, 2],
    [6, 7, 2, 1, 9, 5, 3, 4, 8],
    [1, 9, 8, 3, 4, 2, 5, 6, 7],
    [8, 5, 9, 7, 6, 1, 4, 2, 3],
    [4, 2, 6, 8, 5, 3, 7, 9, 1],
    [7, 1, 3, 9, 2, 4, 8, 5, 6],
    [9, 6, 1, 5, 3, 7, 2, 8, 4],
    [2, 8, 7, 4, 1, 9, 6, 3, 5],
    [3, 4, 5, 2, 8, 6, 1, 7, 9],
];

fn board_of(rows: &[[u8; 9]; 9]) -> Gameboard {
    let mut board = Gameboard::new();
    for row in 0..SIZE {
        for col in 0..SIZE {
            board.set([row, col], rows[row][col]);
        }
    }
    board
}

#[test]
fn empty_board_is_not_solved() {
    assert!(!Gameboard::new().is_solved());
}

#[test]
fn complete_board_is_solved() {
    assert!(board_of(&SOLUTION).is_solved());
}

#[test]
fn transposed_solution_is_solved() {
    let mut rows = [[0u8; 9]; 9];
    for row in 0..SIZE {
        for col in 0..SIZE {
            rows[row][col] = SOLUTION[col][row];
        }
    }
    assert!(board_of(&rows).is_solved());
}

#[test]
fn any_single_empty_cell_unsolves_the_board() {
    for row in 0..SIZE {
        for col in 0..SIZE {
            let mut board = board_of(&SOLUTION);
            board.set([row, col], 0);
            assert!(!board.is_solved());
        }
    }
}

#[test]
fn duplicate_in_a_row_is_not_solved() {
    let mut board = board_of(&SOLUTION);
    // Row 0 now holds 5 twice.
    board.set([0, 1], 5);
    assert!(!board.is_solved());
}

#[test]
fn rows_alone_do_not_make_a_solution() {
    // Every row is a permutation, every column holds one digit nine times.
    let rows = [[1u8, 2, 3, 4, 5, 6, 7, 8, 9]; 9];
    assert!(!board_of(&rows).is_solved());
}

#[test]
fn columns_alone_do_not_make_a_solution() {
    // Every column is a permutation, every row holds one digit nine times.
    let mut rows = [[0u8; 9]; 9];
    for row in 0..SIZE {
        rows[row] = [row as u8 + 1; 9];
    }
    assert!(!board_of(&rows).is_solved());
}

#[test]
fn rows_and_columns_without_sections_do_not_make_a_solution() {
    // A Latin square: rows and columns are permutations, sections are not.
    let mut rows = [[0u8; 9]; 9];
    for row in 0..SIZE {
        for col in 0..SIZE {
            rows[row][col] = ((row + col) % 9) as u8 + 1;
        }
    }
    assert!(!board_of(&rows).is_solved());
}

#[test]
fn swapping_two_cells_of_a_row_breaks_the_columns() {
    let mut board = board_of(&SOLUTION);
    board.set([4, 0], SOLUTION[4][8]);
    board.set([4, 8], SOLUTION[4][0]);
    assert!(!board.is_solved());
}

#[test]
fn restoring_the_cell_solves_the_board_again() {
    let mut board = board_of(&SOLUTION);
    board.set([8, 8], 0);
    assert!(!board.is_solved());
    board.set([8, 8], 9);
    assert!(board.is_solved());
}

#[test]
fn is_solved_does_not_change_the_board() {
    let mut board = board_of(&SOLUTION);
    board.note([0, 0], 2);
    board.select([5, 5]);
    assert!(board.is_solved());
    assert!(board.is_solved());
    for row in 0..SIZE {
        for col in 0..SIZE {
            assert_eq!(board.get_digit([row, col]), Some(SOLUTION[row][col]));
        }
    }
    assert!(board.get_notes([0, 0])[1]);
    assert_eq!(board.selected_cell(), Some([5, 5]));
}

#[test]
fn notes_do_not_count_as_digits() {
    let mut board = Gameboard::new();
    for row in 0..SIZE {
        for col in 0..SIZE {
            board.note([row, col], SOLUTION[row][col]);
        }
    }
    assert!(!board.is_solved());
}

#[test]
fn row_cells_run_from_the_left() {
    for i in 0..SIZE {
        assert_eq!(Group::Row(6).cell_at(i), [6, i]);
    }
}

#[test]
fn column_cells_run_from_the_top() {
    for i in 0..SIZE {
        assert_eq!(Group::Column(2).cell_at(i), [i, 2]);
    }
}

#[test]
fn section_cells_run_row_by_row() {
    let expected = [[3, 6], [3, 7], [3, 8], [4, 6], [4, 7], [4, 8], [5, 6], [5, 7], [5, 8]];
    for i in 0..SIZE {
        assert_eq!(Group::Section(5).cell_at(i), expected[i]);
    }
    assert_eq!(Group::Section(0).cell_at(0), [0, 0]);
    assert_eq!(Group::Section(8).cell_at(8), [8, 8]);
    assert_eq!(Group::Section(6).cell_at(4), [7, 1]);
}

#[test]
fn sections_cover_the_board_once() {
    let mut seen = [[0u32; 9]; 9];
    for section in 0..SIZE {
        for i in 0..SIZE {
            let ind = Group::Section(section).cell_at(i);
            seen[ind[0]][ind[1]] += 1;
        }
    }
    assert_eq!(seen, [[1u32; 9]; 9]);
}
