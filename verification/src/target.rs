//! A square target of nine by nine cells with its centre marked and one
//! impact on it, and its drawing as text.

use crate::binary64::{
    lemma_magnitude_floor_is_floor, lemma_truncated_keeps_side, lemma_whole_magnitude, Binary64,
};
use vstd::arithmetic::power2::{lemma2_to64_rest, pow2};
use vstd::prelude::*;

verus! {

/// The number of rows of the grid, and of cells in a row.
pub const GRID_SIZE: usize = 9;

/// The row and the column of the centre cell.
pub const CENTER: usize = 4;

/// The mark of a cell that holds nothing.
pub const EMPTY_MARK: char = '+';

/// The mark of the centre.
pub const CENTER_MARK: char = 'o';

/// The mark of the impact.
pub const IMPACT_MARK: char = 'x';

/// The coordinate of an impact that does not fall on the grid.
#[derive(Clone, Copy, Debug, PartialEq, Eq, Structural)]
pub enum OutOfRangeError {
    /// The horizontal coordinate is off the grid.
    X,
    /// The horizontal coordinate is on the grid, the vertical one is off it.
    Y,
}

/// The grid without an impact: the centre mark in the middle, the empty mark
/// everywhere else. Rows come first, so a cell is `grid[row][column]`.
pub open spec fn blank_grid() -> Seq<Seq<char>> {
    Seq::new(
        9,
        |row: int|
            Seq::new(
                9,
                |column: int|
                    if row == 4 && column == 4 {
                        'o'
                    } else {
                        '+'
                    },
            ),
    )
}

/// The blank grid with the impact mark set in column `x` of row `y`. An
/// impact on the centre takes the place of the centre mark.
pub open spec fn grid_with_impact(x: int, y: int) -> Seq<Seq<char>> {
    Seq::new(
        9,
        |row: int|
            Seq::new(
                9,
                |column: int|
                    if row == y && column == x {
                        'x'
                    } else if row == 4 && column == 4 {
                        'o'
                    } else {
                        '+'
                    },
            ),
    )
}

/// The drawing of a grid: ninety characters, row after row, each row being
/// its nine cells and a line feed.
pub open spec fn rendering(grid: Seq<Seq<char>>) -> Seq<char> {
    Seq::new(
        90,
        |i: int|
            if i % 10 == 9 {
                '\n'
            } else {
                grid[i / 10][i % 10]
            },
    )
}

/// The character at place `place` of line `line` of a drawing, both counted
/// from 0. A line has ten places, the last of them for the line feed.
pub open spec fn character_at(text: Seq<char>, line: int, place: int) -> char {
    text[10 * line + place]
}

/// The cell that a coordinate falls into. A coordinate is on the grid where
/// it is a number from 0 up to, but not including, 9, and its cell is then
/// the coordinate without its fraction. A coordinate that is less than
/// zero, 9 or more, infinite or NaN falls into no cell.
pub open spec fn cell_of(coordinate: Binary64) -> Option<int> {
    if coordinate.finite() && !coordinate.negative() && coordinate.truncated() <= 8 {
        Some(coordinate.truncated())
    } else {
        None
    }
}

/// `String::push` of the standard library appends one character to the end
/// of the string, as its documentation says.
pub assume_specification[ String::push ](string: &mut String, ch: char)
    ensures
        final(string)@ == old(string)@.push(ch),
;

/// Nine rows of nine marks.
#[derive(Clone, Copy, Debug, PartialEq, Eq)]
pub struct Grid {
    cells: [[char; 9]; 9],
}

impl Grid {
    /// The rows of the grid, each a sequence of nine marks.
    pub closed spec fn view(&self) -> Seq<Seq<char>> {
        Seq::new(9, |row: int| self.cells[row]@)
    }

    /// Every grid has nine rows of nine cells.
    pub proof fn lemma_dimensions(&self)
        ensures
            self@.len() == 9,
            forall|row: int| 0 <= row < 9 ==> (#[trigger] self@[row]).len() == 9,
    {
    }

    /// The blank grid.
    pub fn new() -> (grid: Grid)
        ensures
            grid@ == blank_grid(),
    {
        let mut cells = [[EMPTY_MARK; 9]; 9];
        cells[CENTER][CENTER] = CENTER_MARK;
        let grid = Grid { cells };
        assert(grid@ =~~= blank_grid());
        grid
    }

    /// Sets the impact mark in a cell that is known to be on the grid.
    fn mark_impact(&mut self, x: usize, y: usize)
        requires
            x < 9,
            y < 9,
        ensures
            final(self)@ == old(self)@.update(y as int, old(self)@[y as int].update(x as int, 'x')),
    {
        self.cells[y][x] = IMPACT_MARK;
        assert(self@ =~~= old(self)@.update(y as int, old(self)@[y as int].update(x as int, 'x')));
    }

    /// Sets the impact mark in column `x` of row `y`. Off the grid nothing
    /// is marked and the error names the coordinate.
    pub fn set_impact(&mut self, x: usize, y: usize) -> (outcome: Result<(), OutOfRangeError>)
        ensures
            outcome is Ok <==> x < 9 && y < 9,
            outcome is Ok ==> final(self)@ == old(self)@.update(
                y as int,
                old(self)@[y as int].update(x as int, 'x'),
            ),
            outcome is Err ==> final(self)@ == old(self)@,
            outcome == Err::<(), OutOfRangeError>(OutOfRangeError::X) <==> x >= 9,
            outcome == Err::<(), OutOfRangeError>(OutOfRangeError::Y) <==> x < 9 && y >= 9,
    {
        if x >= GRID_SIZE {
            return Err(OutOfRangeError::X);
        }
        if y >= GRID_SIZE {
            return Err(OutOfRangeError::Y);
        }
        self.mark_impact(x, y);
        Ok(())
    }

    /// The mark in column `x` of row `y`.
    pub fn cell(&self, x: usize, y: usize) -> (mark: Option<char>)
        ensures
            mark == (if x < 9 && y < 9 {
                Some(self@[y as int][x as int])
            } else {
                None::<char>
            }),
    {
        if x < GRID_SIZE && y < GRID_SIZE {
            Some(self.cells[y][x])
        } else {
            None
        }
    }

    /// The drawing of the grid.
    pub fn render(&self) -> (text: String)
        ensures
            text@ == rendering(self@),
    {
        let mut text = String::new();
        for row in 0..GRID_SIZE
            invariant
                text@.len() == 10 * row,
                forall|i: int| 0 <= i < 10 * row ==> text@[i] == rendering(self@)[i],
        {
            for column in 0..GRID_SIZE
                invariant
                    0 <= row < 9,
                    text@.len() == 10 * row + column,
                    forall|i: int| 0 <= i < 10 * row + column ==> text@[i] == rendering(self@)[i],
            {
                text.push(self.cells[row][column]);
            }
            text.push('\n');
        }
        assert(text@ =~= rendering(self@));
        text
    }
}

/// The coordinate that is the whole number `index`, for the indices of the
/// grid: the encodings of 0.0, 1.0 and so on up to 8.0.
pub open spec fn coordinate_of_cell(index: int) -> Binary64 {
    Binary64 {
        bits: if index == 1 {
            0x3ff0_0000_0000_0000
        } else if index == 2 {
            0x4000_0000_0000_0000
        } else if index == 3 {
            0x4008_0000_0000_0000
        } else if index == 4 {
            0x4010_0000_0000_0000
        } else if index == 5 {
            0x4014_0000_0000_0000
        } else if index == 6 {
            0x4018_0000_0000_0000
        } else if index == 7 {
            0x401c_0000_0000_0000
        } else if index == 8 {
            0x4020_0000_0000_0000
        } else {
            0
        },
    }
}

/// A target with one impact on it: the coordinates of the impact as they
/// were given, and the grid that shows it.
#[derive(Clone, Copy, Debug, PartialEq, Eq)]
pub struct Target {
    x: Binary64,
    y: Binary64,
    column: usize,
    row: usize,
    grid: Grid,
}

impl Target {
    #[verifier::type_invariant]
    spec fn well_formed(self) -> bool {
        &&& cell_of(self.x) == Some(self.column as int)
        &&& cell_of(self.y) == Some(self.row as int)
        &&& self.column < 9
        &&& self.row < 9
        &&& self.grid@ == grid_with_impact(self.column as int, self.row as int)
    }

    /// The horizontal coordinate of the impact, as it was given.
    pub closed spec fn coordinate_x(&self) -> Binary64 {
        self.x
    }

    /// The vertical coordinate of the impact, as it was given.
    pub closed spec fn coordinate_y(&self) -> Binary64 {
        self.y
    }

    /// The column of the impact: the cell of the horizontal coordinate.
    pub open spec fn impact_x(&self) -> int {
        cell_of(self.coordinate_x())->0
    }

    /// The row of the impact: the cell of the vertical coordinate.
    pub open spec fn impact_y(&self) -> int {
        cell_of(self.coordinate_y())->0
    }

    /// The grid of the target: blank but for the impact.
    pub open spec fn view(&self) -> Seq<Seq<char>> {
        grid_with_impact(self.impact_x(), self.impact_y())
    }

    /// The target with its impact at the coordinates `x`, to the right, and
    /// `y`, downward. The target keeps the coordinates as they are given;
    /// the impact is marked in the cell that each falls into, which is the
    /// coordinate truncated, not rounded. A coordinate below 0, or from 9
    /// on, is out of range; so is one that is infinite or NaN.
    pub fn new(x: Binary64, y: Binary64) -> (target: Result<Target, OutOfRangeError>)
        ensures
            target is Ok <==> cell_of(x) is Some && cell_of(y) is Some,
            target matches Ok(hit) ==> hit.coordinate_x() == x && hit.coordinate_y() == y,
            target matches Err(error) ==> (error == OutOfRangeError::X <==> cell_of(x) is None),
    {
        match (cell_index(x), cell_index(y)) {
            (Some(column), Some(row)) => Ok(Target::marked(x, y, column, row)),
            (None, _) => Err(OutOfRangeError::X),
            (Some(_), None) => Err(OutOfRangeError::Y),
        }
    }

    /// The target with its impact in column `x` of row `y`, where the grid
    /// has that cell. Its coordinates are the two whole numbers.
    pub fn from_cell(x: usize, y: usize) -> (target: Result<Target, OutOfRangeError>)
        ensures
            target is Ok <==> x < 9 && y < 9,
            target matches Ok(hit) ==> hit.coordinate_x() == coordinate_of_cell(x as int)
                && hit.coordinate_y() == coordinate_of_cell(y as int) && hit.impact_x() == x
                && hit.impact_y() == y,
            target matches Err(error) ==> (error == OutOfRangeError::X <==> x >= 9),
    {
        if x >= GRID_SIZE {
            Err(OutOfRangeError::X)
        } else if y >= GRID_SIZE {
            Err(OutOfRangeError::Y)
        } else {
            Ok(Target::at(x, y))
        }
    }

    /// The target with its impact in a cell that is known to be on the grid.
    pub(crate) fn at(x: usize, y: usize) -> (target: Target)
        requires
            x < 9,
            y < 9,
        ensures
            target.coordinate_x() == coordinate_of_cell(x as int),
            target.coordinate_y() == coordinate_of_cell(y as int),
            target.impact_x() == x,
            target.impact_y() == y,
    {
        proof {
            lemma_coordinate_of_cell(x as int);
            lemma_coordinate_of_cell(y as int);
        }
        Target::marked(whole_coordinate(x), whole_coordinate(y), x, y)
    }

    /// The target with the given coordinates, whose cells are known.
    fn marked(x: Binary64, y: Binary64, column: usize, row: usize) -> (target: Target)
        requires
            cell_of(x) == Some(column as int),
            cell_of(y) == Some(row as int),
        ensures
            target.coordinate_x() == x,
            target.coordinate_y() == y,
    {
        proof {
            lemma_cell_exists_from_zero_below_nine(x);
            lemma_cell_exists_from_zero_below_nine(y);
        }
        let mut grid = Grid::new();
        grid.mark_impact(column, row);
        assert(grid@ =~~= grid_with_impact(column as int, row as int));
        Target { x, y, column, row, grid }
    }

    /// The horizontal coordinate of the impact, as it was given.
    pub fn x(&self) -> (x: Binary64)
        ensures
            x == self.coordinate_x(),
    {
        self.x
    }

    /// The vertical coordinate of the impact, as it was given.
    pub fn y(&self) -> (y: Binary64)
        ensures
            y == self.coordinate_y(),
    {
        self.y
    }

    /// The column of the impact.
    pub fn column(&self) -> (column: usize)
        ensures
            column == self.impact_x(),
            column < 9,
    {
        proof {
            use_type_invariant(self);
        }
        self.column
    }

    /// The row of the impact.
    pub fn row(&self) -> (row: usize)
        ensures
            row == self.impact_y(),
            row < 9,
    {
        proof {
            use_type_invariant(self);
        }
        self.row
    }

    /// The grid of the target.
    pub fn grid(&self) -> (grid: &Grid)
        ensures
            grid@ == self@,
    {
        proof {
            use_type_invariant(self);
        }
        &self.grid
    }

    /// The drawing of the target: nine lines of nine marks.
    pub fn to_string(&self) -> (text: String)
        ensures
            text@ == rendering(self@),
    {
        proof {
            use_type_invariant(self);
        }
        self.grid.render()
    }
}

/// The coordinate that is the whole number `index`.
fn whole_coordinate(index: usize) -> (coordinate: Binary64)
    requires
        index < 9,
    ensures
        coordinate == coordinate_of_cell(index as int),
{
    let bits: u64 = if index == 1 {
        0x3ff0_0000_0000_0000
    } else if index == 2 {
        0x4000_0000_0000_0000
    } else if index == 3 {
        0x4008_0000_0000_0000
    } else if index == 4 {
        0x4010_0000_0000_0000
    } else if index == 5 {
        0x4014_0000_0000_0000
    } else if index == 6 {
        0x4018_0000_0000_0000
    } else if index == 7 {
        0x401c_0000_0000_0000
    } else if index == 8 {
        0x4020_0000_0000_0000
    } else {
        0
    };
    Binary64::from_bits(bits)
}

/// The coordinate of a cell is the whole number that counts the cell: it is
/// finite, not negative, its magnitude is the index with no fraction, and
/// so it falls into that cell.
pub proof fn lemma_coordinate_of_cell(index: int)
    requires
        0 <= index < 9,
    ensures
        coordinate_of_cell(index).finite(),
        !coordinate_of_cell(index).sign(),
        coordinate_of_cell(index).magnitude_is(index as nat),
        cell_of(coordinate_of_cell(index)) == Some(index),
{
    let coordinate = coordinate_of_cell(index);
    lemma2_to64_rest();
    let down = (-coordinate.scale()) as nat;
    let unit = pow2(down);
    assert(coordinate.significand() == index * unit) by {
        if index == 0 {
            assert(coordinate.exponent() == 0);
            assert(0 * unit == 0) by (nonlinear_arith);
        } else if index == 1 {
            assert(coordinate.exponent() == 1023);
        } else if index < 4 {
            assert(coordinate.exponent() == 1024);
        } else if index < 8 {
            assert(coordinate.exponent() == 1025);
        } else {
            assert(coordinate.exponent() == 1026);
        }
    }
    lemma_whole_magnitude(coordinate, index as nat);
}

/// The index of the cell that a coordinate falls into.
fn cell_index(coordinate: Binary64) -> (index: Option<usize>)
    ensures
        index matches Some(i) ==> cell_of(coordinate) == Some(i as int),
        index is None ==> cell_of(coordinate) is None,
{
    if coordinate.is_negative() {
        return None;
    }
    proof {
        if coordinate.finite() {
            lemma_truncated_keeps_side(coordinate);
        }
    }
    match coordinate.truncate() {
        Some(integer) => {
            if integer < 9 {
                Some(integer as usize)
            } else {
                None
            }
        },
        None => None,
    }
}

/// A coordinate falls into a cell exactly where it is a number that is not
/// less than 0 and is less than 9.
pub proof fn lemma_cell_exists_from_zero_below_nine(coordinate: Binary64)
    ensures
        cell_of(coordinate) is Some <==> coordinate.finite() && !coordinate.negative()
            && coordinate.magnitude_below(9),
        cell_of(coordinate) matches Some(index) ==> 0 <= index <= 8,
{
    lemma_magnitude_floor_is_floor(coordinate, 9);
    if coordinate.finite() {
        lemma_truncated_keeps_side(coordinate);
    }
}

/// The character that belongs at place `place` of line `line` in the drawing
/// of a target hit in column `x` of row `y`: a line feed at the end of the
/// line, the impact mark on the cell of the impact, the centre mark on the
/// centre unless the impact is there, and the empty mark everywhere else.
pub open spec fn expected_character(x: int, y: int, line: int, place: int) -> char {
    if place == 9 {
        '\n'
    } else if line == y && place == x {
        'x'
    } else if line == 4 && place == 4 {
        'o'
    } else {
        '+'
    }
}

/// Where the marks of a drawn target are. The drawing has ninety characters,
/// and each of its nine lines of ten holds exactly the characters that
/// belong there: the impact mark stands at place `x` of line `y` and nowhere
/// else.
pub proof fn lemma_marks_of_rendering(x: int, y: int)
    requires
        0 <= x < 9,
        0 <= y < 9,
    ensures
        rendering(grid_with_impact(x, y)).len() == 90,
        forall|line: int, place: int|
            0 <= line < 9 && 0 <= place < 10 ==> #[trigger] character_at(
                rendering(grid_with_impact(x, y)),
                line,
                place,
            ) == expected_character(x, y, line, place),
{
    let text = rendering(grid_with_impact(x, y));
    assert forall|line: int, place: int|
        0 <= line < 9 && 0 <= place < 10 implies #[trigger] character_at(text, line, place)
        == expected_character(x, y, line, place) by {
        let i = 10 * line + place;
        assert(i % 10 == place);
        assert(i / 10 == line);
    }
}

} // verus!
