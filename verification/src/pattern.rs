//! Cell patterns on the five-by-five grid, and the two transforms that make one
//! pattern usable from any cell and from either side of the board.
//!
//! Cells are numbered row by row from the top left corner: cell `i` lies in row
//! `i / 5` and column `i % 5`, and the centre of the grid is cell 12.

use bitmaps::Bitmap;
use typenum::U25;
use vstd::prelude::*;
use vstd::string::StringExecFns;

verus! {

/// Number of cells on the grid.
pub const CELLS: usize = 25;

/// Number of cells in a row of the grid.
pub const SIDE: usize = 5;

/// The cell at the centre of the grid, on which every move pattern is anchored.
pub const CENTER: usize = 12;

/// A pattern of cells, stored in a `bitmaps::Bitmap` of twenty-five bits.
///
/// The bitmap is kept behind this struct, out of reach of proofs: all that is
/// known of a pattern comes from the three private functions below that call
/// into the bitmap.
#[verifier::external_body]
pub struct Pattern {
    bits: Bitmap<U25>,
}

/// The indices at which the bitmap inside a pattern holds a set bit.
pub uninterp spec fn pattern_bits(p: Pattern) -> Set<int>;

impl View for Pattern {
    type V = Set<int>;

    /// The cells of the grid that belong to the pattern.
    open spec fn view(&self) -> Set<int> {
        Set::new(|i: int| 0 <= i < 25 && pattern_bits(*self).contains(i))
    }
}

/// Calls `Bitmap::new`, which returns a bitmap with every bit cleared.
#[verifier::external_body]
fn bitmap_new() -> (r: Pattern)
    ensures
        pattern_bits(r) == Set::<int>::empty(),
{
    Pattern { bits: Bitmap::new() }
}

/// Calls `Bitmap::get`, which reads the bit at `index`. The bitmap asserts the
/// index against its size, so only indices on the grid are admitted.
#[verifier::external_body]
fn bitmap_get(p: &Pattern, index: usize) -> (r: bool)
    requires
        index < 25,
    ensures
        r == pattern_bits(*p).contains(index as int),
{
    p.bits.get(index)
}

/// Calls `Bitmap::set`, which writes `value` to the bit at `index`, leaves every
/// other bit as it was and returns the bit's previous value.
#[verifier::external_body]
fn bitmap_set(p: &mut Pattern, index: usize, value: bool) -> (prev: bool)
    requires
        index < 25,
    ensures
        prev == pattern_bits(*old(p)).contains(index as int),
        value ==> pattern_bits(*final(p)) == pattern_bits(*old(p)).insert(index as int),
        !value ==> pattern_bits(*final(p)) == pattern_bits(*old(p)).remove(index as int),
{
    p.bits.set(index, value)
}

impl Pattern {
    /// The empty pattern.
    pub fn new() -> (r: Pattern)
        ensures
            r@ == Set::<int>::empty(),
    {
        let r = bitmap_new();
        r
    }

    /// Whether cell `index` belongs to the pattern. No cell off the grid does.
    pub fn get(&self, index: usize) -> (r: bool)
        ensures
            r == self@.contains(index as int),
    {
        index < CELLS && bitmap_get(self, index)
    }

    /// Adds cell `index` to the pattern, or removes it, and returns whether it
    /// belonged to the pattern before.
    pub fn set(&mut self, index: usize, value: bool) -> (prev: bool)
        requires
            index < 25,
        ensures
            prev == old(self)@.contains(index as int),
            value ==> final(self)@ == old(self)@.insert(index as int),
            !value ==> final(self)@ == old(self)@.remove(index as int),
    {
        bitmap_set(self, index, value)
    }
}

/// The cell opposite to `i` under a half turn of the grid about its centre.
pub open spec fn mirror_cell(i: int) -> int {
    24 - i
}

/// The pattern turned by half a turn: it holds a cell exactly when the given
/// pattern holds the opposite cell.
pub open spec fn mirrored(cells: Set<int>) -> Set<int> {
    Set::new(|i: int| 0 <= i < 25 && cells.contains(mirror_cell(i)))
}

/// Row of cell `i`.
pub open spec fn row_of(i: int) -> int {
    i / 5
}

/// Column of cell `i`.
pub open spec fn col_of(i: int) -> int {
    i % 5
}

/// Whether row `r` and column `c` name a cell of the grid.
pub open spec fn on_grid(r: int, c: int) -> bool {
    0 <= r < 5 && 0 <= c < 5
}

/// Row of the cell that a pattern anchored at `pos` copies into cell `i`.
pub open spec fn source_row(i: int, pos: int) -> int {
    row_of(i) - (row_of(pos) - 2)
}

/// Column of the cell that a pattern anchored at `pos` copies into cell `i`.
pub open spec fn source_col(i: int, pos: int) -> int {
    col_of(i) - (col_of(pos) - 2)
}

/// The pattern moved from the centre of the grid to `pos`, rows and columns
/// moved separately. A cell of the result is set exactly when the cell that lies
/// the same number of rows and columns from the centre as it lies from `pos` is
/// on the grid and set in the given pattern. What would leave the grid is
/// dropped: nothing carries over from the end of one row to the start of the
/// next.
pub open spec fn shifted(cells: Set<int>, pos: int) -> Set<int> {
    Set::new(
        |i: int|
            0 <= i < 25 && on_grid(source_row(i, pos), source_col(i, pos)) && cells.contains(
                5 * source_row(i, pos) + source_col(i, pos),
            ),
    )
}

/// Turns a pattern by half a turn, so that a pattern drawn for one side of the
/// board serves the other: cell `i` goes to cell `24 - i`.
pub fn reverse(board: &Pattern) -> (r: Pattern)
    ensures
        r@ == mirrored(board@),
{
    let mut reversed = Pattern::new();
    let mut index: usize = 0;
    while index < CELLS
        invariant
            index <= 25,
            forall|i: int|
                reversed@.contains(i) <==> 24 - index < i < 25 && board@.contains(mirror_cell(i)),
        decreases 25 - index,
    {
        if board.get(index) {
            reversed.set(CELLS - 1 - index, true);
        }
        index += 1;
    }
    reversed
}

/// Moves a pattern drawn around the centre of the grid so that it lies around
/// `pos`. Cells that would leave the grid are dropped, on every side of it.
pub fn shift_bitmap(board: &Pattern, pos: usize) -> (r: Pattern)
    ensures
        r@ == shifted(board@, pos as int),
{
    let mut moved = Pattern::new();
    let mut index: usize = 0;
    while index < CELLS
        invariant
            index <= 25,
            forall|i: int| moved@.contains(i) <==> i < index && shifted(board@, pos as int).contains(i),
        decreases 25 - index,
    {
        if pos <= index + CENTER {
            let source = index + CENTER - pos;
            if source < CELLS && index / SIDE + CENTER / SIDE == source / SIDE + pos / SIDE {
                if board.get(source) {
                    moved.set(index, true);
                }
            }
        }
        index += 1;
    }
    moved
}

/// The picture of a pattern as text: five lines of five cells each, `1` for a
/// cell of the pattern and `0` for any other, a space after every cell but the
/// last of a line, and a line feed after that one.
pub open spec fn picture(cells: Set<int>) -> Seq<char> {
    Seq::new(
        50,
        |k: int|
            if k % 2 == 0 {
                if cells.contains(k / 2) {
                    '1'
                } else {
                    '0'
                }
            } else if (k / 2) % 5 == 4 {
                '\n'
            } else {
                ' '
            },
    )
}

/// Draws a pattern as text: five lines of five cells each, `1` for a cell of
/// the pattern and `0` for any other.
pub fn format_bitmap(bitmap: &Pattern) -> (r: String)
    ensures
        r@ == picture(bitmap@),
{
    let mut repr = String::new();
    let mut index: usize = 0;
    proof {
        reveal_strlit("1");
        reveal_strlit("0");
        reveal_strlit("\n");
        reveal_strlit(" ");
    }
    while index < 25
        invariant
            index <= 25,
            repr@.len() == 2 * index,
            forall|k: int| 0 <= k < 2 * index ==> repr@[k] == picture(bitmap@)[k],
            "1"@ == seq!['1'],
            "0"@ == seq!['0'],
            "\n"@ == seq!['\n'],
            " "@ == seq![' '],
        decreases 25 - index,
    {
        if bitmap.get(index) {
            repr.append("1");
        } else {
            repr.append("0");
        }
        if index % 5 == 4 {
            repr.append("\n");
        } else {
            repr.append(" ");
        }
        index += 1;
    }
    repr
}

/// Turning a pattern twice by half a turn gives the pattern back.
pub proof fn lemma_reverse_twice(p: Pattern)
    ensures
        mirrored(mirrored(p@)) == p@,
{
}

/// A shifted pattern keeps every row and column distance. Cell `i` is set in
/// the pattern moved to `pos` exactly when some cell `s` of the given pattern
/// lies on the grid as far from the centre, in rows and in columns, as `i` lies
/// from `pos`; and that cell is `i + 12 - pos`.
pub proof fn lemma_shift_keeps_offsets(p: Pattern, pos: int, i: int)
    requires
        0 <= pos < 25,
    ensures
        shifted(p@, pos).contains(i) <==> 0 <= i < 25 && p@.contains(i + 12 - pos) && row_of(i)
            - row_of(pos) == row_of(i + 12 - pos) - row_of(12),
        shifted(p@, pos).contains(i) ==> col_of(i) - col_of(pos) == col_of(i + 12 - pos) - col_of(
            12,
        ),
{
}

} // verus!
