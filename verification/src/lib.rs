//! A CHIP-8 machine with proved behaviour.
//!
//! The machine has sixteen registers of eight bits, 4096 bytes of memory, a
//! display of 64 by 32 pixels that lies in that memory, and two timers that count
//! down sixty times a second. [`systems::Chip8`] is the machine; a host steps it
//! one instruction at a time, tells it the time and the state of its sixteen keys,
//! and shows its display.
//!
//! Every function states what it does over mathematical values: [`mem`] the
//! address space and the drawing of sprites, [`isa`] the instructions and their
//! encoding, [`cpu`] what each instruction does, [`systems`] the steps of the whole
//! machine, [`laws`] what follows for every program.

pub mod cpu;
pub mod debug;
pub mod disas;
pub mod display;
pub mod errors;
pub mod input;
pub mod isa;
pub mod laws;
pub mod mem;
pub mod rng;
pub mod systems;
pub mod text;
pub mod timing;
