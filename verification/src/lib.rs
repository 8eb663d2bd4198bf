//! An assembler for a microcontroller family with 12-bit instruction words.
//!
//! Assembly text goes through two passes. The first one cuts the text into
//! lines, binds every label to the address of the instruction that follows it
//! and lays the instructions out in banks of 512 words. The second one splits
//! each instruction into its mnemonic and operands, resolves the operands and
//! packs them into a two-byte word.
//!
//! Every module states its behaviour as spec functions over `Seq<char>` and
//! proves the executable code against them.

pub mod args;
pub mod assembler;
pub mod error;
pub mod instructions;
pub mod listing;
pub mod operand;
pub mod symbols;
pub mod text;
pub mod tokenizer;
