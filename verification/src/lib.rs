//! A software emulator for a small byte-oriented virtual CPU.
//!
//! A program is a flat image of three-byte instructions (opcode, two operand
//! bytes) loaded into a fixed-size memory. The machine repeatedly fetches,
//! decodes and executes instructions against a bank of 32-bit registers, a
//! downward-growing byte stack inside the same memory, and an append-only
//! output buffer, until the halt flag is set.
//!
//! Every operand byte is resolved by one uniform rule: values below 128 are
//! immediate literals (or literal memory addresses), values of 128 and above
//! select register `value - 128`.

pub mod execution;
pub mod instruction;
pub mod laws;
pub mod machine;
pub mod params;

pub use instruction::Instruction;
pub use machine::Machine;
