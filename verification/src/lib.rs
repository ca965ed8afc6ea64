//! A verified Game Boy (DMG) emulation core.
//!
//! The crate models the Sharp SM83 CPU, the memory bus with its cartridge
//! bank controllers, the timer, and the picture processing unit.  Every
//! subsystem advances by the machine-cycle count of the instruction that the
//! interpreter just executed.  The host window loop lives outside the
//! library and only exchanges plain values (frames, key states) with it.

#![allow(non_snake_case)]

pub mod clock;
pub mod engine;
pub mod gpu;
pub mod memory;
pub mod registers;
