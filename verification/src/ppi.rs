//! The keyboard side of the programmable peripheral interface.
//!
//! Port C selects one of eleven rows of eight keys, port B reads it. A key that
//! is down pulls its bit low.
pub mod matrix_laws;

use vstd::prelude::*;

verus! {

pub const ROWS: usize = 11;

/// Whether bit `c` of a byte is up.
pub open spec fn bit(b: u8, c: int) -> bool {
    b & (1u8 << (c as u8)) != 0
}

/// The keyboard as values.
#[verifier::ext_equal]
pub struct Keyboard {
    /// One byte per row, a bit down for each key that is.
    pub rows: Seq<u8>,
    pub selected: u8,
}

impl Keyboard {
    pub open spec fn wf(self) -> bool {
        self.rows.len() == ROWS && self.selected < 16
    }

    /// The keyboard with nothing pressed.
    pub open spec fn at_rest() -> Keyboard {
        Keyboard { rows: Seq::new(11, |i: int| 0xFFu8), selected: 0 }
    }

    /// Whether a key is down.
    pub open spec fn down(self, row: int, col: int) -> bool {
        !bit(self.rows[row], col)
    }

    /// The row that is selected; there is none past the last.
    pub open spec fn row(self) -> u8 {
        if self.selected < 11 {
            self.rows[self.selected as int]
        } else {
            0xFF
        }
    }

    /// A key pressed or released. There are no keys outside the matrix.
    pub open spec fn with_key(self, row: int, col: int, pressed: bool) -> Keyboard {
        if row >= 11 || col >= 8 {
            self
        } else {
            let mask = 1u8 << (col as u8);
            Keyboard {
                rows: self.rows.update(
                    row,
                    if pressed {
                        self.rows[row] & !mask
                    } else {
                        self.rows[row] | mask
                    },
                ),
                ..self
            }
        }
    }
}

/// The interface.
pub struct Ppi {
    rows: [u8; 11],
    selected_row: u8,
}

impl View for Ppi {
    type V = Keyboard;

    closed spec fn view(&self) -> Keyboard {
        Keyboard { rows: self.rows@, selected: self.selected_row }
    }
}

impl Ppi {
    pub open spec fn wf(&self) -> bool {
        self@.wf()
    }

    pub fn new() -> (r: Self)
        ensures
            r.wf(),
            r@ == Keyboard::at_rest(),
    {
        Ppi { rows: [0xFF; 11], selected_row: 0 }
    }

    /// Press or release a key. Keys outside the matrix are ignored.
    pub fn set_key(&mut self, row: u8, col: u8, pressed: bool)
        requires
            old(self).wf(),
        ensures
            final(self).wf(),
            final(self)@ == old(self)@.with_key(row as int, col as int, pressed),
    {
        if row as usize >= ROWS || col >= 8 {
            return ;
        }
        let mask: u8 = 1u8 << col;
        if pressed {
            self.rows[row as usize] = self.rows[row as usize] & !mask;
        } else {
            self.rows[row as usize] = self.rows[row as usize] | mask;
        }
    }

    /// The row that is selected.
    pub fn read_row(&self) -> (r: u8)
        requires
            self.wf(),
        ensures
            r == self@.row(),
    {
        if self.selected_row < 11 {
            self.rows[self.selected_row as usize]
        } else {
            0xFF
        }
    }

    /// Select a row, by the low four bits.
    pub fn write_port_c(&mut self, value: u8)
        requires
            old(self).wf(),
        ensures
            final(self).wf(),
            final(self)@ == (Keyboard { selected: value % 16, ..old(self)@ }),
    {
        self.selected_row = value % 16;
    }

    /// Release every key.
    pub fn release_all(&mut self)
        requires
            old(self).wf(),
        ensures
            final(self).wf(),
            final(self)@ == (Keyboard { rows: Keyboard::at_rest().rows, ..old(self)@ }),
    {
        self.rows = [0xFF; 11];
        assert(self@.rows =~= Keyboard::at_rest().rows);
    }
}

impl Default for Ppi {
    fn default() -> (r: Self)
        ensures
            r.wf(),
            r@ == Keyboard::at_rest(),
    {
        Ppi::new()
    }
}

proof fn lemma_bits(b: u8, c: u8, d: u8)
    by (bit_vector)
    requires
        c < 8,
        d < 8,
    ensures
        (b & !(1u8 << c)) & (1u8 << c) == 0,
        (b | (1u8 << c)) & (1u8 << c) != 0,
        c != d ==> (b & !(1u8 << c)) & (1u8 << d) == b & (1u8 << d),
        c != d ==> (b | (1u8 << c)) & (1u8 << d) == b & (1u8 << d),
        0xFFu8 & (1u8 << d) != 0,
{
}

/// A key is down exactly when it was last pressed, and pressing or releasing it
/// changes no other key. At rest no key is down.
pub proof fn law_keys_are_independent(
    k: Keyboard,
    row: int,
    col: int,
    pressed: bool,
    row2: int,
    col2: int,
)
    requires
        k.wf(),
        0 <= row < 11,
        0 <= col < 8,
        0 <= row2 < 11,
        0 <= col2 < 8,
    ensures
        k.with_key(row, col, pressed).down(row, col) == pressed,
        (row2, col2) != (row, col) ==> k.with_key(row, col, pressed).down(row2, col2) == k.down(
            row2,
            col2,
        ),
        !Keyboard::at_rest().down(row, col),
{
    lemma_bits(k.rows[row], col as u8, col2 as u8);
    lemma_bits(k.rows[row], col2 as u8, col as u8);
}

} // verus!
