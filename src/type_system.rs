//! Descriptions of the language's types and of a token by its place in the
//! source.
use vstd::prelude::*;

verus! {

#[derive(Debug, Clone, Copy, PartialEq, Eq, Structural)]
pub enum PrimitiveType {
    Int,
    Float,
    String,
    Tuple,
    List,
    Dictionary,
    Function,
    Class,
    Struct,
}

#[derive(Debug, Clone, Copy, PartialEq, Eq, Structural)]
pub enum TypeCategory {
    Number,
    Immutable,
    Mutable,
    Sequence,
    Callable,
}

#[derive(Debug, Clone, Copy, PartialEq, Eq, Structural)]
pub struct TypeInfo {
    pub primitive: PrimitiveType,
    pub category: TypeCategory,
}

#[derive(Debug, Clone, Copy, PartialEq, Eq, Structural)]
pub enum TokenKind {
    Identifier,
    Keyword,
    Literal(TypeInfo),
    Operator,
    Delimiter,
}

/// A token by its kind and its place in the source text.
#[derive(Debug)]
pub struct Token<'src> {
    pub kind: TokenKind,
    pub lexeme: &'src str,
    pub line: u32,
    pub start: u32,
    pub end: u32,
}

} // verus!
