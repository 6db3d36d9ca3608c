//! What the rows of the keyboard read as.
#[allow(unused_imports)]
use crate::ppi::{bit, Keyboard};
use vstd::prelude::*;

verus! {

/// Two to a column number.
pub open spec fn weight(c: int) -> int {
    if c == 0 {
        1
    } else if c == 1 {
        2
    } else if c == 2 {
        4
    } else if c == 3 {
        8
    } else if c == 4 {
        16
    } else if c == 5 {
        32
    } else if c == 6 {
        64
    } else {
        128
    }
}

proof fn lemma_columns(b: u8, c: u8, w: u8)
    by (bit_vector)
    requires
        c < 8,
        c == 0 ==> w == 1,
        c == 1 ==> w == 2,
        c == 2 ==> w == 4,
        c == 3 ==> w == 8,
        c == 4 ==> w == 16,
        c == 5 ==> w == 32,
        c == 6 ==> w == 64,
        c == 7 ==> w == 128,
    ensures
        (b & (1u8 << c) != 0) == ((b / w) % 2 == 1),
        (b / w) % 2 == 1 ==> b & !(1u8 << c) == b - w && b | (1u8 << c) == b,
        (b / w) % 2 == 0 ==> b & !(1u8 << c) == b && b | (1u8 << c) == b + w,
{
}

/// A key that goes down takes the weight of its column off the byte of its row, unless it was
/// down; one that goes up adds it. No other row changes. There are eleven rows of eight
/// columns, and keys outside change nothing.
pub proof fn law_keys_weigh(k: Keyboard, row: int, col: int, pressed: bool, r: int)
    requires
        k.wf(),
        0 <= row,
        0 <= col,
        0 <= r < 11,
    ensures
        ({
            let t = k.with_key(row, col, pressed);
            let b = k.rows[row];
            let up = (b as int / weight(col)) % 2 == 1;
            &&& t.selected == k.selected
            &&& row >= 11 || col >= 8 ==> t == k
            &&& row < 11 && col < 8 ==> t.rows[row] == (if pressed && up {
                b - weight(col)
            } else if !pressed && !up {
                b + weight(col)
            } else {
                b as int
            })
            &&& r != row ==> t.rows[r] == k.rows[r]
        }),
{
    if row < 11 && col < 8 {
        lemma_columns(k.rows[row], col as u8, weight(col) as u8);
    }
}

/// The keyboard port reads the row that is selected, and 0xFF past the last row. At rest every
/// row reads as 0xFF.
pub proof fn law_selected_row_reads(k: Keyboard, r: u8)
    requires
        k.wf(),
        r < 16,
    ensures
        r < 11 ==> (Keyboard { selected: r, ..k }).row() == k.rows[r as int],
        r >= 11 ==> (Keyboard { selected: r, ..k }).row() == 0xFF,
        (Keyboard { selected: r, ..Keyboard::at_rest() }).row() == 0xFF,
{
}

/// A key is down while the bit of its column is down in the byte of its row.
pub proof fn law_down_is_low(k: Keyboard, row: int, col: int)
    requires
        k.wf(),
        0 <= row < 11,
        0 <= col < 8,
    ensures
        k.down(row, col) <==> (k.rows[row] as int / weight(col)) % 2 == 0,
{
    lemma_columns(k.rows[row], col as u8, weight(col) as u8);
}

} // verus!
