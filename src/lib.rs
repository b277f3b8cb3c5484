//! A minimal real-mode x86 interpreter for 512-byte boot sectors.
//!
//! The [`loader`] checks and stages a boot image into a flat memory; the
//! [`engine`] then fetches, decodes and executes one instruction at a time
//! until the image halts or meets an opcode it does not know.
pub mod cpu;
pub mod engine;
pub mod loader;
