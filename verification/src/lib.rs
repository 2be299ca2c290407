//! A CHIP-8 virtual machine: the instruction decoder, the machine state and
//! the execution engine, with the contracts of its display and its keyboard.

pub mod chip8;
pub mod frame;
pub mod keypad;
pub mod machine;
pub mod opcode;
pub mod peripherals;
pub mod state;
pub mod timer;
