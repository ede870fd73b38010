//! When a board counts as solved, and what follows from that.

use vstd::prelude::*;
use vstd::seq_lib::seq_to_set_is_finite;
use vstd::set_lib::{lemma_int_range, lemma_subset_equality, set_int_range};
use crate::model::{in_board, BoardModel};

verus! {

/// One of the 27 groups of nine cells that the rules speak of. Rows count from
/// the top and columns from the left; sections count row by row, three to a
/// row, from the top left.
#[derive(Clone, Copy, Debug)]
pub enum Group {
    Row(usize),
    Column(usize),
    Section(usize),
}

impl Group {
    /// Whether the group's number is one of the nine.
    pub open spec fn valid(self) -> bool {
        match self {
            Group::Row(r) => r < 9,
            Group::Column(c) => c < 9,
            Group::Section(s) => s < 9,
        }
    }

    /// The coordinate `(row, column)` of the group's `i`-th cell. A row is
    /// walked from the left, a column from the top, and a section row by row
    /// from its top-left cell.
    pub open spec fn cell(self, i: int) -> (int, int) {
        match self {
            Group::Row(r) => (r as int, i),
            Group::Column(c) => (i, c as int),
            Group::Section(s) => (s as int / 3 * 3 + i / 3, s as int % 3 * 3 + i % 3),
        }
    }

    /// The coordinate `[row, column]` of the group's `i`-th cell.
    pub fn cell_at(self, i: usize) -> (ind: [usize; 2])
        requires
            self.valid(),
            i < 9,
        ensures
            (ind[0] as int, ind[1] as int) == self.cell(i as int),
            ind[0] < 9,
            ind[1] < 9,
    {
        match self {
            Group::Row(r) => [r, i],
            Group::Column(c) => [i, c],
            Group::Section(s) => [(s / 3) * 3 + i / 3, (s % 3) * 3 + i % 3],
        }
    }
}

impl BoardModel {
    /// The digit in the `i`-th cell of group `g`.
    pub open spec fn group_digit(self, g: Group, i: int) -> nat {
        self.digit(g.cell(i).0, g.cell(i).1)
    }

    /// No cell of the board is empty.
    pub open spec fn no_empty_cell(self) -> bool {
        forall|r: int, c: int| in_board(r, c) ==> #[trigger] self.digit(r, c) != 0
    }

    /// No cell of group `g` is empty.
    pub open spec fn filled_in(self, g: Group) -> bool {
        forall|i: int| 0 <= i < 9 ==> #[trigger] self.group_digit(g, i) != 0
    }

    /// No two cells of group `g` hold the same digit.
    pub open spec fn distinct_in(self, g: Group) -> bool {
        forall|i: int, j: int|
            0 <= i < j < 9 ==> #[trigger] self.group_digit(g, i) != #[trigger] self.group_digit(
                g,
                j,
            )
    }

    /// The board is solved: no cell is empty, and no row, column or section
    /// holds a digit twice.
    pub open spec fn is_solved(self) -> bool {
        &&& self.no_empty_cell()
        &&& forall|g: Group| g.valid() ==> #[trigger] self.distinct_in(g)
    }

    /// Every digit on the board is at most nine.
    pub open spec fn digits_in_range(self) -> bool {
        forall|r: int, c: int| in_board(r, c) ==> #[trigger] self.digit(r, c) <= 9
    }

    /// Digit `d` stands in exactly one cell of group `g`.
    pub open spec fn holds_once(self, g: Group, d: nat) -> bool {
        exists|i: int|
            {
                &&& 0 <= i < 9
                &&& #[trigger] self.group_digit(g, i) == d
                &&& forall|j: int| 0 <= j < 9 && #[trigger] self.group_digit(g, j) == d ==> j == i
            }
    }

    /// Group `g` holds each of the digits one to nine exactly once.
    pub open spec fn complete_in(self, g: Group) -> bool {
        forall|d: nat| 1 <= d <= 9 ==> #[trigger] self.holds_once(g, d)
    }

    /// Every row, column and section holds each of the digits one to nine
    /// exactly once.
    pub open spec fn complete(self) -> bool {
        forall|g: Group| g.valid() ==> #[trigger] self.complete_in(g)
    }
}

/// Nine different numbers below nine are all the numbers below nine.
proof fn lemma_nine_distinct_cover(p: Seq<int>)
    requires
        p.len() == 9,
        forall|k: int| 0 <= k < 9 ==> 0 <= #[trigger] p[k] < 9,
        p.no_duplicates(),
    ensures
        forall|v: int| 0 <= v < 9 ==> p.contains(v),
{
    p.unique_seq_to_set();
    seq_to_set_is_finite(p);
    lemma_int_range(0, 9);
    assert(p.to_set().subset_of(set_int_range(0, 9)));
    lemma_subset_equality(p.to_set(), set_int_range(0, 9));
    assert forall|v: int| 0 <= v < 9 implies p.contains(v) by {
        assert(set_int_range(0, 9).contains(v));
        assert(p.to_set().contains(v));
    }
}

/// In a group that holds each of one to nine exactly once, every cell holds
/// one of them, and no two cells hold the same.
proof fn lemma_complete_group(b: BoardModel, g: Group)
    requires
        b.complete_in(g),
    ensures
        forall|i: int| 0 <= i < 9 ==> 1 <= #[trigger] b.group_digit(g, i) <= 9,
        b.distinct_in(g),
{
    let place = |k: int|
        choose|i: int|
            {
                &&& 0 <= i < 9
                &&& #[trigger] b.group_digit(g, i) == (k + 1) as nat
                &&& forall|j: int|
                    0 <= j < 9 && #[trigger] b.group_digit(g, j) == (k + 1) as nat ==> j == i
            };
    let places = Seq::new(9, place);
    assert forall|k: int| 0 <= k < 9 implies 0 <= #[trigger] places[k] < 9 && b.group_digit(
        g,
        places[k],
    ) == k + 1 by {
        assert(b.holds_once(g, (k + 1) as nat));
    }
    lemma_nine_distinct_cover(places);
    assert forall|i: int| 0 <= i < 9 implies 1 <= #[trigger] b.group_digit(g, i) <= 9 by {
        assert(places.contains(i));
    }
    assert forall|i: int, j: int| 0 <= i < j < 9 implies #[trigger] b.group_digit(g, i)
        != #[trigger] b.group_digit(g, j) by {
        let d = b.group_digit(g, i);
        assert(b.holds_once(g, d));
    }
}

/// A board on which every row, column and section holds each of the digits
/// one to nine exactly once is solved.
pub proof fn lemma_complete_is_solved(b: BoardModel)
    requires
        b.complete(),
    ensures
        b.is_solved(),
{
    assert forall|r: int, c: int| in_board(r, c) implies #[trigger] b.digit(r, c) != 0 by {
        let g = Group::Row(r as usize);
        assert(g.valid());
        assert(b.complete_in(g));
        lemma_complete_group(b, g);
        assert(b.group_digit(g, c) == b.digit(r, c));
    }
    assert forall|g: Group| g.valid() implies #[trigger] b.distinct_in(g) by {
        assert(b.complete_in(g));
        lemma_complete_group(b, g);
    }
}

/// A board with an empty cell is not solved.
pub proof fn lemma_empty_cell_not_solved(b: BoardModel, row: int, col: int)
    requires
        in_board(row, col),
        b.digit(row, col) == 0,
    ensures
        !b.is_solved(),
{
}

/// A board on which two cells of one row, column or section hold the same
/// digit is not solved, whichever digit it is.
pub proof fn lemma_duplicate_not_solved(b: BoardModel, g: Group, i: int, j: int)
    requires
        g.valid(),
        0 <= i < 9,
        0 <= j < 9,
        i != j,
        b.group_digit(g, i) == b.group_digit(g, j),
    ensures
        !b.is_solved(),
{
    if b.is_solved() {
        assert(b.distinct_in(g));
        if i < j {
            assert(b.group_digit(g, i) != b.group_digit(g, j));
        } else {
            assert(b.group_digit(g, j) != b.group_digit(g, i));
        }
    }
}

/// On a solved board whose digits are at most nine, every row, column and
/// section holds each of the digits one to nine exactly once.
pub proof fn lemma_solved_is_complete(b: BoardModel)
    requires
        b.is_solved(),
        b.digits_in_range(),
    ensures
        b.complete(),
{
    assert forall|g: Group| g.valid() implies #[trigger] b.complete_in(g) by {
        assert(b.distinct_in(g));
        assert forall|i: int| 0 <= i < 9 implies 1 <= #[trigger] b.group_digit(g, i) <= 9 by {
            lemma_group_cell_on_board(g, i);
            let p = g.cell(i);
            assert(b.digit(p.0, p.1) != 0);
            assert(b.digit(p.0, p.1) <= 9);
        }
        let digits = Seq::new(9, |i: int| b.group_digit(g, i) - 1);
        assert forall|i: int, j: int|
            0 <= i < 9 && 0 <= j < 9 && i != j implies digits[i] != digits[j] by {
            if i < j {
                assert(b.group_digit(g, i) != b.group_digit(g, j));
            } else {
                assert(b.group_digit(g, j) != b.group_digit(g, i));
            }
        }
        lemma_nine_distinct_cover(digits);
        assert forall|d: nat| 1 <= d <= 9 implies #[trigger] b.holds_once(g, d) by {
            assert(digits.contains(d - 1));
            let i = choose|i: int| 0 <= i < 9 && digits[i] == d - 1;
            assert(b.group_digit(g, i) == d);
            assert forall|j: int| 0 <= j < 9 && #[trigger] b.group_digit(g, j) == d implies j
                == i by {
                if j < i {
                    assert(b.group_digit(g, j) != b.group_digit(g, i));
                } else if i < j {
                    assert(b.group_digit(g, i) != b.group_digit(g, j));
                }
            }
        }
    }
}

/// While no digit is above nine, the solved boards are exactly those on
/// which every row, column and section holds each of one to nine once.
pub proof fn lemma_solved_iff_complete(b: BoardModel)
    requires
        b.digits_in_range(),
    ensures
        b.is_solved() <==> b.complete(),
{
    if b.is_solved() {
        lemma_solved_is_complete(b);
    }
    if b.complete() {
        lemma_complete_is_solved(b);
    }
}

/// Whether a board is solved depends on its digits alone: flipping a note
/// or selecting a cell does not change it.
pub proof fn lemma_solved_reads_digits_only(b: BoardModel, row: int, col: int, val: nat)
    requires
        b.wf(),
        in_board(row, col),
        1 <= val <= 9,
    ensures
        b.toggle_note(row, col, val).is_solved() == b.is_solved(),
        b.select(row as nat, col as nat).is_solved() == b.is_solved(),
{
    let noted = b.toggle_note(row, col, val);
    let picked = b.select(row as nat, col as nat);
    assert forall|r: int, c: int| in_board(r, c) implies #[trigger] noted.digit(r, c) == b.digit(
        r,
        c,
    ) && #[trigger] picked.digit(r, c) == b.digit(r, c) by {}
    lemma_same_digits_same_verdict(b, noted);
    lemma_same_digits_same_verdict(b, picked);
}

/// Two boards that agree on every digit are both solved or both not.
pub proof fn lemma_same_digits_same_verdict(a: BoardModel, b: BoardModel)
    requires
        forall|r: int, c: int| in_board(r, c) ==> #[trigger] a.digit(r, c) == #[trigger] b.digit(r, c),
    ensures
        a.is_solved() == b.is_solved(),
{
    assert forall|g: Group, i: int| g.valid() && 0 <= i < 9 implies #[trigger] a.group_digit(g, i)
        == b.group_digit(g, i) by {
        lemma_group_cell_on_board(g, i);
        assert(a.digit(g.cell(i).0, g.cell(i).1) == b.digit(g.cell(i).0, g.cell(i).1));
    }
    lemma_agreeing_boards(a, b);
    lemma_agreeing_boards(b, a);
}

/// If `a` is solved and `b` agrees with it on every digit, `b` is solved.
proof fn lemma_agreeing_boards(a: BoardModel, b: BoardModel)
    requires
        forall|r: int, c: int| in_board(r, c) ==> #[trigger] a.digit(r, c) == #[trigger] b.digit(r, c),
        forall|g: Group, i: int|
            g.valid() && 0 <= i < 9 ==> #[trigger] a.group_digit(g, i) == b.group_digit(g, i),
    ensures
        a.is_solved() ==> b.is_solved(),
{
    if a.is_solved() {
        assert forall|r: int, c: int| in_board(r, c) implies #[trigger] b.digit(r, c) != 0 by {
            assert(a.digit(r, c) != 0);
        }
        assert forall|g: Group| g.valid() implies #[trigger] b.distinct_in(g) by {
            assert(a.distinct_in(g));
            assert forall|i: int, j: int| 0 <= i < j < 9 implies #[trigger] b.group_digit(g, i)
                != #[trigger] b.group_digit(g, j) by {
                assert(a.group_digit(g, i) != a.group_digit(g, j));
            }
        }
    }
}

/// Every cell of a group lies on the board.
pub proof fn lemma_group_cell_on_board(g: Group, i: int)
    requires
        g.valid(),
        0 <= i < 9,
    ensures
        in_board(g.cell(i).0, g.cell(i).1),
{
}

} // verus!
