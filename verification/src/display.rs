//! Facts about sprites on the wrapping screen.

use vstd::prelude::*;
use crate::machine::{sprite_bit, Machine, SCREEN_HEIGHT, SCREEN_WIDTH};

verus! {

/// The part of `Machine::sprite_covers` that lies before column `upto` of
/// sprite row `line`, the sprite being drawn row by row and from left to
/// right: what the drawing loop has covered when it gets there.
#[verifier::opaque]
pub open spec fn sprite_covers_before(
    m: Machine,
    ox: int,
    oy: int,
    line: int,
    upto: int,
    r: int,
    c: int,
) -> bool {
    let row = (r - oy) % (SCREEN_HEIGHT as int);
    let col = (c - ox) % (SCREEN_WIDTH as int);
    (row < line || (row == line && col < upto)) && col < 8 && sprite_bit(
        m.memory[m.index + row],
        col,
    )
}

/// Drawing one more pixel of a sprite row adds the cell under that pixel,
/// and no other cell.
pub proof fn lemma_covers_next_column(
    m: Machine,
    ox: int,
    oy: int,
    line: int,
    col: int,
    r: int,
    c: int,
)
    requires
        0 <= ox,
        0 <= oy,
        0 <= line < 32,
        0 <= col < 8,
        0 <= r < 32,
        0 <= c < 64,
    ensures
        sprite_covers_before(m, ox, oy, line, col + 1, r, c) == (sprite_covers_before(m, ox,
            oy,
            line,
            col,
            r,
            c,
        ) || (r == (oy + line) % 32 && c == (ox + col) % 64 && sprite_bit(
            m.memory[m.index + line],
            col,
        ))),
{
    reveal(sprite_covers_before);
}

/// The cell under the pixel that is drawn next has not been drawn on yet.
pub proof fn lemma_cell_not_yet_covered(m: Machine, ox: int, oy: int, line: int, col: int)
    requires
        0 <= ox,
        0 <= oy,
        0 <= line < 32,
        0 <= col < 8,
    ensures
        !sprite_covers_before(m, ox, oy, line, col, (oy + line) % 32, (ox + col) % 64),
{
    reveal(sprite_covers_before);
}

/// A sprite row that is drawn in full is a finished row.
pub proof fn lemma_covers_next_row(m: Machine, ox: int, oy: int, line: int, r: int, c: int)
    ensures
        sprite_covers_before(m, ox, oy, line + 1, 0, r, c) == sprite_covers_before(m, ox,
            oy,
            line,
            8,
            r,
            c,
        ),
{
    reveal(sprite_covers_before);
}

/// Before anything is drawn, nothing is covered; when all rows are drawn,
/// the sprite is.
pub proof fn lemma_covers_all_rows(m: Machine, ox: int, oy: int, n: int, r: int, c: int)
    ensures
        !sprite_covers_before(m, ox, oy, 0, 0, r, c),
        sprite_covers_before(m, ox, oy, n, 0, r, c) == m.sprite_covers(ox, oy, n, r, c),
{
    reveal(sprite_covers_before);
}

} // verus!
