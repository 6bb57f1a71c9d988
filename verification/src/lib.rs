//! A small virtual machine for Java class files: a loader for the binary class
//! format and a stack-based bytecode interpreter.
//!
//! The machine itself never touches a floating-point unit, a clock or a file.
//! Floating-point cells are carried as IEEE-754 bit patterns; instructions
//! whose result needs rounding, and native methods, are handed to the host of
//! the machine as a [`host::HostCall`] and their answer is fed back in.

pub mod class;
pub mod descriptor;
pub mod error;
pub mod heap;
pub mod host;
pub mod instruction;
pub mod local;
pub mod stack;
pub mod text;
pub mod numeric;
pub mod opcode;
pub mod run;
pub mod value;
