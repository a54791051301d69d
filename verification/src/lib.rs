//! A CHIP-8 virtual machine core: instruction decoder, execution engine and
//! cycle driver, with every instruction's effect stated as a contract.

pub mod cpu;
pub mod display;
pub mod engine;
pub mod fault;
pub mod memory;
pub mod opcodes;
pub mod sprite;
pub mod state;
pub mod theorems;
pub mod utils;
