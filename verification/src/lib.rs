pub mod ast;
pub mod error;
pub mod grammar;
pub mod keywords;
pub mod laws;
pub mod lexer;
pub mod parse_declaration;
pub mod parse_expression;
pub mod parse_function_def;
pub mod parser;
pub mod tokens;
pub mod types;
pub mod variable;
