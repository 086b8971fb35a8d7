//! The horizontal extent of a pixel glyph: seven rows of text in which `#`
//! marks a lit cell.
use vstd::prelude::*;

verus! {

/// The number of rows of a glyph.
pub const GLYPH_ROWS: usize = 7;

/// Row `row` of `glyph` lights column `col`.
pub open spec fn lit(glyph: [&str; 7], row: int, col: int) -> bool {
    &&& 0 <= row < 7
    &&& 0 <= col < glyph@[row]@.len()
    &&& glyph@[row]@[col] == '#'
}

/// Some row of `glyph` lights column `col`.
pub open spec fn column_lit(glyph: [&str; 7], col: int) -> bool {
    exists|row: int| lit(glyph, row, col)
}

/// The leftmost and rightmost lit columns of `glyph`, or `None` where no
/// cell is lit.
pub fn glyph_bounds(glyph: [&str; 7]) -> (r: Option<(usize, usize)>)
    ensures
        forall|i: int, j: int| #[trigger] lit(glyph, i, j) ==> (r matches Some(b) && b.0 <= j <= b.1),
        r matches Some(b) ==> column_lit(glyph, b.0 as int) && column_lit(glyph, b.1 as int),
{
    let mut min_x: usize = 0;
    let mut max_x: usize = 0;
    let mut found = false;
    let ghost mut min_row: int = 0;
    let ghost mut max_row: int = 0;
    let mut row: usize = 0;
    while row < GLYPH_ROWS
        invariant
            row <= 7,
            found ==> lit(glyph, min_row, min_x as int),
            found ==> lit(glyph, max_row, max_x as int),
            forall|r: int, c: int| 0 <= r < row && lit(glyph, r, c) ==> found && min_x <= c <= max_x,
        decreases 7 - row,
    {
        let line: &str = glyph[row];
        let n = line.unicode_len();
        let mut col: usize = 0;
        while col < n
            invariant
                row < 7,
                line@ == glyph@[row as int]@,
                n == line@.len(),
                col <= n,
                found ==> lit(glyph, min_row, min_x as int),
                found ==> lit(glyph, max_row, max_x as int),
                forall|r: int, c: int| 0 <= r < row && lit(glyph, r, c) ==> found && min_x <= c <= max_x,
                forall|c: int| 0 <= c < col && lit(glyph, row as int, c) ==> found && min_x <= c <= max_x,
            decreases n - col,
        {
            if line.get_char(col) == '#' {
                assert(lit(glyph, row as int, col as int));
                if !found {
                    min_x = col;
                    max_x = col;
                    found = true;
                    proof {
                        min_row = row as int;
                        max_row = row as int;
                    }
                } else {
                    if col < min_x {
                        min_x = col;
                        proof {
                            min_row = row as int;
                        }
                    }
                    if col > max_x {
                        max_x = col;
                        proof {
                            max_row = row as int;
                        }
                    }
                }
            }
            col += 1;
        }
        row += 1;
    }
    assert forall|r: int, c: int| lit(glyph, r, c) implies found && min_x <= c <= max_x by {
        assert(0 <= r < row);
    }
    if found {
        assert(lit(glyph, min_row, min_x as int));
        assert(lit(glyph, max_row, max_x as int));
        Some((min_x, max_x))
    } else {
        None
    }
}

} // verus!
