//! Standard lexeme ids. The grammar and the interpreter switch on these
//! numbers only, never on a lexeme's spelling.
use vstd::prelude::*;

verus! {

pub const L_BRACE: u32 = 1;
pub const R_BRACE: u32 = 2;
pub const L_PAREN: u32 = 3;
pub const R_PAREN: u32 = 4;
pub const COLON: u32 = 7;
pub const COMMA: u32 = 9;
pub const DOT: u32 = 10;

pub const PLUS: u32 = 13;
pub const MINUS: u32 = 14;
pub const MULTIPLY: u32 = 15;
pub const DIVIDE: u32 = 16;
pub const LESS: u32 = 17;
pub const GREATER: u32 = 18;
pub const LESS_EQUAL: u32 = 19;
pub const GREATER_EQUAL: u32 = 20;
pub const EQUAL_EQUAL: u32 = 21;
pub const NOT_EQUAL: u32 = 22;
pub const ASSIGN: u32 = 33;

pub const IF: u32 = 40;
pub const ELSE: u32 = 41;
pub const WHILE: u32 = 42;
pub const RETURN: u32 = 43;
pub const FUNCTION: u32 = 46;
pub const CLASS: u32 = 47;
pub const STRUCT: u32 = 48;
pub const LET: u32 = 53;

pub const IDENTIFIER: u32 = 70;
pub const INT_LITERAL: u32 = 71;
pub const FLOAT_LITERAL: u32 = 72;
pub const STRING_LITERAL: u32 = 73;
pub const UNKNOWN_SYMBOL: u32 = 99;

pub const INT_TYPE: u32 = 71;
pub const FLOAT_TYPE: u32 = 72;
pub const STRING_TYPE: u32 = 73;
pub const BOOL_TYPE: u32 = 75;

/// Id of a token that could not be formed (an unterminated string).
pub const ERROR: u32 = 0;

pub const PRINT: u32 = 300;
pub const INPUT: u32 = 301;
pub const LEN: u32 = 302;

} // verus!
