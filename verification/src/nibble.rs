//! Four-bit values: the digits of an instruction word, and the indices of the
//! sixteen registers and the sixteen keys.

use vstd::prelude::*;

verus! {

/// One hexadecimal digit. Every value of the type is a valid register or key
/// index, so indexing a sixteen-entry table by a `Nibble` needs no range check.
#[derive(Clone, Copy, Debug, PartialEq, Eq, Hash)]
pub enum Nibble {
    N0,
    N1,
    N2,
    N3,
    N4,
    N5,
    N6,
    N7,
    N8,
    N9,
    NA,
    NB,
    NC,
    ND,
    NE,
    NF,
}

impl Nibble {
    /// The number that the digit stands for, between 0 and 15.
    pub open spec fn as_int(self) -> int {
        match self {
            Nibble::N0 => 0,
            Nibble::N1 => 1,
            Nibble::N2 => 2,
            Nibble::N3 => 3,
            Nibble::N4 => 4,
            Nibble::N5 => 5,
            Nibble::N6 => 6,
            Nibble::N7 => 7,
            Nibble::N8 => 8,
            Nibble::N9 => 9,
            Nibble::NA => 10,
            Nibble::NB => 11,
            Nibble::NC => 12,
            Nibble::ND => 13,
            Nibble::NE => 14,
            Nibble::NF => 15,
        }
    }

    /// The digit that stands for `i`; digit 0 for an `i` outside 0..16.
    pub open spec fn of_int(i: int) -> Nibble {
        if i == 1 {
            Nibble::N1
        } else if i == 2 {
            Nibble::N2
        } else if i == 3 {
            Nibble::N3
        } else if i == 4 {
            Nibble::N4
        } else if i == 5 {
            Nibble::N5
        } else if i == 6 {
            Nibble::N6
        } else if i == 7 {
            Nibble::N7
        } else if i == 8 {
            Nibble::N8
        } else if i == 9 {
            Nibble::N9
        } else if i == 10 {
            Nibble::NA
        } else if i == 11 {
            Nibble::NB
        } else if i == 12 {
            Nibble::NC
        } else if i == 13 {
            Nibble::ND
        } else if i == 14 {
            Nibble::NE
        } else if i == 15 {
            Nibble::NF
        } else {
            Nibble::N0
        }
    }

    /// On 0..16, `of_int` is the inverse of `as_int`.
    pub proof fn lemma_of_int(i: int)
        requires
            0 <= i < 16,
        ensures
            Nibble::of_int(i).as_int() == i,
    {
    }

    /// The digit for `value`, if `value` is below 16.
    pub fn new(value: u8) -> (digit: Option<Nibble>)
        ensures
            value < 16 ==> digit == Some(Nibble::of_int(value as int)),
            value >= 16 ==> digit.is_none(),
    {
        match value {
            0 => Some(Nibble::N0),
            1 => Some(Nibble::N1),
            2 => Some(Nibble::N2),
            3 => Some(Nibble::N3),
            4 => Some(Nibble::N4),
            5 => Some(Nibble::N5),
            6 => Some(Nibble::N6),
            7 => Some(Nibble::N7),
            8 => Some(Nibble::N8),
            9 => Some(Nibble::N9),
            10 => Some(Nibble::NA),
            11 => Some(Nibble::NB),
            12 => Some(Nibble::NC),
            13 => Some(Nibble::ND),
            14 => Some(Nibble::NE),
            15 => Some(Nibble::NF),
            _ => None,
        }
    }

    /// The upper four bits of `byte`.
    pub fn high(byte: u8) -> (digit: Nibble)
        ensures
            digit == Nibble::of_int(byte as int / 16),
    {
        let top: u8 = byte >> 4;
        assert(top == byte / 16) by (bit_vector)
            requires
                top == byte >> 4,
        ;
        match Nibble::new(top) {
            Some(digit) => digit,
            None => Nibble::N0,
        }
    }

    /// The lower four bits of `byte`.
    pub fn low(byte: u8) -> (digit: Nibble)
        ensures
            digit == Nibble::of_int(byte as int % 16),
    {
        let bottom: u8 = byte & 0xF;
        assert(bottom == byte % 16) by (bit_vector)
            requires
                bottom == byte & 0xF,
        ;
        match Nibble::new(bottom) {
            Some(digit) => digit,
            None => Nibble::N0,
        }
    }

    /// The digit as a byte.
    pub fn value(self) -> (value: u8)
        ensures
            value == self.as_int(),
    {
        match self {
            Nibble::N0 => 0,
            Nibble::N1 => 1,
            Nibble::N2 => 2,
            Nibble::N3 => 3,
            Nibble::N4 => 4,
            Nibble::N5 => 5,
            Nibble::N6 => 6,
            Nibble::N7 => 7,
            Nibble::N8 => 8,
            Nibble::N9 => 9,
            Nibble::NA => 10,
            Nibble::NB => 11,
            Nibble::NC => 12,
            Nibble::ND => 13,
            Nibble::NE => 14,
            Nibble::NF => 15,
        }
    }

    /// The digit as an index into a sixteen-entry table.
    pub fn index(self) -> (index: usize)
        ensures
            index == self.as_int(),
            index < 16,
    {
        self.value() as usize
    }
}

} // verus!
