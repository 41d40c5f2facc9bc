pub mod ast;
pub mod errors;
pub mod laws;
pub mod lexer_lemmas;
pub mod parser;
pub mod parser_lemmas;
pub mod token;
