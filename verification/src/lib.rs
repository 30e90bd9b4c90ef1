//! A small scripting language with first-class functions and lexical
//! closures: lexer, parser, bytecode compiler and stack machine.
//!
//! Text becomes tokens ([`lexer`]), tokens become a syntax tree
//! ([`parser`]), the tree becomes a linear instruction sequence
//! ([`compiler`]), and the machine ([`vm`]) executes that sequence. The
//! machine writes nothing itself: what a program prints is collected in the
//! machine for the caller to show.
//!
//! Each stage has a mathematical model in its `model` module, and every
//! exec function is proved to compute what the model says. The `laws`
//! modules hold what is proved of the models themselves.

pub mod compiler;
pub mod lexer;
pub mod parser;
pub mod text;
pub mod vm;
