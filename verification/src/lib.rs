pub mod ast;
pub mod environment;
pub mod grammar;
pub mod interpreter;
pub mod laws;
pub mod lexical;
pub mod lox;
pub mod number;
pub mod parser;
pub mod precedence;
pub mod scanner;
pub mod semantics;
pub mod spelling;
pub mod text;
pub mod token;
pub mod value;
