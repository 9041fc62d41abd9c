//! A CHIP-8 virtual machine: memory with the built-in font, a 64x32
//! monochrome display, a one-key keypad, a delay timer and the CPU that
//! interprets the instruction set.

pub mod ram;
pub mod display;
pub mod keyboard;
pub mod controller;
pub mod cpu;
pub mod chip8;
pub mod frontend;
pub mod cpu_laws;
