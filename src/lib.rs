//! A small scripting language whose keywords have several spellings: a
//! scanner that cuts source text into lexemes and classifies them by a
//! lexeme catalog's records, a recursive-descent parser driven by standard
//! token ids alone, and a tree-walking interpreter. The parser is proved to
//! read as `grammar` says, and the interpreter to run as `semantics` says.
pub mod ast;
pub mod catalog;
pub mod configuration;
pub mod grammar;
pub mod interpreter;
pub mod laws;
pub mod number;
pub mod parser;
pub mod semantics;
pub mod std_ids;
pub mod text;
pub mod tokenizer;
pub mod type_system;
