//! Layered byte-stream decoders feeding a small verified CPU emulator.
//!
//! Each layer (`step1` through `step6`) takes the bytes produced by the
//! previous layer, strips one encoding, and hands the result on; the final
//! layer interprets the bytes as a program for the Tomtel machine and
//! returns the bytes that program emits before halting.

pub mod base85;
pub mod encode;
pub mod vm;
pub mod step1;
pub mod step2;
pub mod step3;
pub mod step4;
pub mod step5;
pub mod step6;
