//! A single-pass bytecode compiler and a stack machine for a small language
//! of arithmetic expressions.
//!
//! A source text goes through three stages: the `scanner` turns it into
//! tokens, the `compiler` parses the tokens by operator precedence and
//! emits instructions into a `chunk` as it goes, and the `vm` executes the
//! chunk on an operand stack. Numbers are opaque to all three: the machine
//! stops at each arithmetic instruction and leaves the arithmetic to its
//! host.

pub mod chunk;
pub mod compiler;
pub mod scanner;
pub mod text;
pub mod token;
pub mod value;
pub mod vm;
