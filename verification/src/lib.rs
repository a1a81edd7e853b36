pub mod assign_homes;
pub mod ast;
pub mod cvar;
pub mod explicate_control;
pub mod interpreter;
pub mod lexer;
pub mod namegen;
pub mod numfmt;
pub mod parser;
pub mod patch_instructions;
pub mod remove_complex_operands;
pub mod select_instructions;
pub mod token;
pub mod uniquify;
pub mod x86;
