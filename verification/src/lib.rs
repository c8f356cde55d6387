//! A CHIP-8 virtual machine core: register file, memory, display, keypad and
//! the fetch-decode-execute engine, with every operation's effect stated as a
//! contract over a mathematical model of the machine.

pub mod display;
pub mod error;
pub mod instruction;
pub mod interpreter;
pub mod keyboard;
pub mod keymap;
pub mod machine;
pub mod memory;
mod random;
pub mod registers;
