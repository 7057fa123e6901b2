//! Translator from the stack-based VM language of the Nand2Tetris toolchain
//! to assembly text for its 16-bit register machine.
//!
//! Two components do the work.  The command classifier ([`VmCodeParser`])
//! cleans raw VM text, recognises each command's kind against a vocabulary
//! table ([`CommandTable`]) and extracts its operands.  The code generator
//! ([`VmCodeWriter`]) emits the assembly for each command, threading two
//! pieces of run-wide state through the translation: a push-only call-site
//! stack that scopes user labels and numbers return addresses, and a
//! per-unit line counter that keeps the comparison expansions' internal
//! jump targets unique.
//!
//! Every emitter's output is pinned by a specification down to the byte,
//! and [`VmCodeWriter::translate`] is proved to implement a specification
//! level fold of those emitters over the unit's command lines, aborting on
//! the first invalid command exactly as its contract states.

pub mod input;
pub mod numbers;
pub mod parser;
pub mod text;
pub mod vocab;
pub mod writer;

pub use input::check_valid_vm_files;
pub use parser::VMCommandType;
pub use parser::VmCodeParser;
pub use vocab::get_command_symbol_table;
pub use vocab::CommandTable;
pub use writer::VmCodeWriter;
