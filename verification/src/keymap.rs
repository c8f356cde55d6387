//! Where the sixteen keys sit on a keyboard with letters.
//!
//! The keypad's four rows are laid over the left of the keyboard:
//!
//! ```text
//! 1 2 3 C        1 2 3 4
//! 4 5 6 D   on   q w e r
//! 7 8 9 E        a s d f
//! A 0 B F        z x c v
//! ```
//!
//! `y` stands for `A` as well, for keyboards that have it where others have
//! `z`.

use vstd::prelude::*;

verus! {

/// The key that the character `c` stands for, if it stands for one.
pub open spec fn key_for_spec(c: char) -> Option<u8> {
    if c == '1' {
        Some(0x1)
    } else if c == '2' {
        Some(0x2)
    } else if c == '3' {
        Some(0x3)
    } else if c == '4' {
        Some(0xC)
    } else if c == 'q' {
        Some(0x4)
    } else if c == 'w' {
        Some(0x5)
    } else if c == 'e' {
        Some(0x6)
    } else if c == 'r' {
        Some(0xD)
    } else if c == 'a' {
        Some(0x7)
    } else if c == 's' {
        Some(0x8)
    } else if c == 'd' {
        Some(0x9)
    } else if c == 'f' {
        Some(0xE)
    } else if c == 'y' || c == 'z' {
        Some(0xA)
    } else if c == 'x' {
        Some(0x0)
    } else if c == 'c' {
        Some(0xB)
    } else if c == 'v' {
        Some(0xF)
    } else {
        None
    }
}

/// The key that the character `c` stands for, if it stands for one. A key
/// that is returned is one of the sixteen.
pub fn key_for(c: char) -> (key: Option<u8>)
    ensures
        key == key_for_spec(c),
        key matches Some(k) ==> k < 16,
{
    match c {
        '1' => Some(0x1),
        '2' => Some(0x2),
        '3' => Some(0x3),
        '4' => Some(0xC),
        'q' => Some(0x4),
        'w' => Some(0x5),
        'e' => Some(0x6),
        'r' => Some(0xD),
        'a' => Some(0x7),
        's' => Some(0x8),
        'd' => Some(0x9),
        'f' => Some(0xE),
        'y' | 'z' => Some(0xA),
        'x' => Some(0x0),
        'c' => Some(0xB),
        'v' => Some(0xF),
        _ => None,
    }
}

/// The character that types `key`: one of those that stand for it.
pub open spec fn char_for(key: u8) -> char {
    if key == 0x0 {
        'x'
    } else if key == 0x1 {
        '1'
    } else if key == 0x2 {
        '2'
    } else if key == 0x3 {
        '3'
    } else if key == 0x4 {
        'q'
    } else if key == 0x5 {
        'w'
    } else if key == 0x6 {
        'e'
    } else if key == 0x7 {
        'a'
    } else if key == 0x8 {
        's'
    } else if key == 0x9 {
        'd'
    } else if key == 0xA {
        'z'
    } else if key == 0xB {
        'c'
    } else if key == 0xC {
        '4'
    } else if key == 0xD {
        'r'
    } else if key == 0xE {
        'f'
    } else {
        'v'
    }
}

/// Every one of the sixteen keys can be typed.
pub proof fn lemma_every_key_has_a_char(key: u8)
    requires
        key < 16,
    ensures
        key_for_spec(char_for(key)) == Some(key),
{
}

} // verus!
