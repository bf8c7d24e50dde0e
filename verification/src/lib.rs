pub mod token;
pub mod lexer;
pub mod ast;
pub mod text;
pub mod parser;
pub mod num;
pub mod builtins;
pub mod interpreter;
pub mod type_checker;
pub mod driver;
pub mod cli;
