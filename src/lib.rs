//! A CHIP-8 class virtual machine and its assembler.
//!
//! - [`codec`]: the bit fields of a 16-bit opcode.
//! - [`instr`]: the instruction model shared by both halves: encoding,
//!   decoding, canonical text and side-effect flags.
//! - [`system`]: the machine state and the semantics of every instruction.
//! - [`assembler`]: the two-pass assembler with aggregated diagnostics.
//! - [`text`]: building text from characters and numbers.

pub mod codec;
pub mod text;
pub mod instr;
pub mod system;
pub mod assembler;

pub use codec::{arg_nnn, arg_x, arg_x_kk, arg_x_y, arg_x_y_n, no_args};
pub use instr::{AddressOrSymbol, DrawSpriteInstr, Instr, InstrFlags, UndefInstr, WordInstr};
pub use system::{instrs_to_rom, make_system, Chip8System};
pub use assembler::{parse_asm, parse_asm_str};
