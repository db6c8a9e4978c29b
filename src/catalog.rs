//! Rows of the lexeme catalog: the standard lexemes, and the spellings in
//! each language that resolve to them.
use vstd::prelude::*;
use crate::type_system::TokenKind;

verus! {

/// A standard lexeme, which every spelling of it shares.
#[derive(Clone, PartialEq)]
pub struct StdLexemTBL {
    pub id: i32,
    pub name: &'static str,
    pub lexem_type: TokenKind,
}

/// A spelling of a standard lexeme in one language.
#[derive(Clone, PartialEq)]
pub struct AccessedLexemesTBL {
    pub id: i32,
    pub lang_name: &'static str,
    pub lexeme: &'static str,
    pub type_info: Option<&'static str>,
    pub std_lexem: StdLexemTBL,
}

} // verus!
