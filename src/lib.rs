//! A compiler for a small subset of C that lowers one `int main(void)` function
//! to x86-64 assembly in AT&T syntax.
pub mod names;
pub mod ast;
pub mod tacky;
pub mod error;
pub mod codegen;
pub mod frame;
pub mod emit;
pub mod resolve;
pub mod checks;
pub mod loops;
pub mod semantic;
pub mod lexer;
pub mod parser;
pub mod laws;
pub mod compile;
pub mod preserve;
