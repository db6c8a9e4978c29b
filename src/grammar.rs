//! The grammar, as a recursive-descent reading of a token sequence by the
//! tokens' standard ids. Each production reads from a position and gives the
//! tree it read and the position after it, or the error where it stopped.
//! Every production checks that the position it gets back from another one
//! has not moved backwards, which is what bounds the descent; `lemma_program`
//! shows that the check never fails.
use vstd::prelude::*;
use crate::ast::{BinOp, DataTypeV, ExprV, StmtV};
use crate::number::{parse_literal, Num};
use crate::std_ids;
use crate::tokenizer::Token;

verus! {

/// Why a parse stopped.
pub enum PErr {
    /// The grammar needed `expected` where a token with id `found` and text
    /// `lexeme` stands.
    Expected(u32, u32, Seq<char>),
    /// No production starts with the token with this id and text.
    Unexpected(u32, Seq<char>),
    /// The tokens ran out.
    EndOfInput,
    /// A number token whose text is no decimal literal of at most
    /// `MAX_LITERAL_DIGITS` digits.
    InvalidNumber(Seq<char>),
    /// A production gave back a position before the one it started at
    /// (which never happens: see `lemma_program`).
    Stalled,
}

pub open spec fn at(t: Seq<Token>, p: int, id: u32) -> bool {
    0 <= p < t.len() && t[p].std_token_id == id
}

/// Whether `q`, given back by a production started at `p`, is a position
/// that does not go backwards.
pub open spec fn fwd(t: Seq<Token>, p: int, q: int) -> bool {
    p <= q <= t.len()
}

/// The token with id `id` at `p`.
pub open spec fn expect(t: Seq<Token>, p: int, id: u32) -> Result<int, PErr> {
    if at(t, p, id) {
        Ok(p + 1)
    } else if p < 0 || p >= t.len() {
        Err(PErr::EndOfInput)
    } else {
        Err(PErr::Expected(id, t[p].std_token_id, t[p].value@))
    }
}


pub open spec fn binop_of(id: u32) -> Option<BinOp> {
    if id == std_ids::PLUS {
        Some(BinOp::Add)
    } else if id == std_ids::MINUS {
        Some(BinOp::Sub)
    } else if id == std_ids::MULTIPLY {
        Some(BinOp::Mul)
    } else if id == std_ids::DIVIDE {
        Some(BinOp::Div)
    } else if id == std_ids::LESS {
        Some(BinOp::Less)
    } else if id == std_ids::GREATER {
        Some(BinOp::Greater)
    } else if id == std_ids::LESS_EQUAL {
        Some(BinOp::LessEqual)
    } else if id == std_ids::GREATER_EQUAL {
        Some(BinOp::GreaterEqual)
    } else if id == std_ids::EQUAL_EQUAL {
        Some(BinOp::Equal)
    } else if id == std_ids::NOT_EQUAL {
        Some(BinOp::NotEqual)
    } else {
        None
    }
}

pub open spec fn is_comparison(op: BinOp) -> bool {
    op == BinOp::Less || op == BinOp::Greater || op == BinOp::LessEqual || op == BinOp::GreaterEqual
        || op == BinOp::Equal || op == BinOp::NotEqual
}

pub open spec fn is_additive(op: BinOp) -> bool {
    op == BinOp::Add || op == BinOp::Sub
}

pub open spec fn is_multiplicative(op: BinOp) -> bool {
    op == BinOp::Mul || op == BinOp::Div
}

/// The operator of the given level at `p`, if one stands there.
pub open spec fn op_at(t: Seq<Token>, p: int, level: int) -> Option<BinOp> {
    if 0 <= p < t.len() {
        match binop_of(t[p].std_token_id) {
            Some(op) => if (level == 0 && is_comparison(op)) || (level == 1 && is_additive(op)) || (level == 2
                && is_multiplicative(op)) {
                Some(op)
            } else {
                None
            },
            None => None,
        }
    } else {
        None
    }
}

/// type := INT_TYPE | FLOAT_TYPE | STRING_TYPE | BOOL_TYPE | IDENT
pub open spec fn p_type(t: Seq<Token>, p: int) -> Result<(DataTypeV, int), PErr> {
    if p < 0 || p >= t.len() {
        Err(PErr::EndOfInput)
    } else {
        let id = t[p].std_token_id;
        if id == std_ids::INT_TYPE {
            Ok((DataTypeV::Int, p + 1))
        } else if id == std_ids::FLOAT_TYPE {
            Ok((DataTypeV::Float, p + 1))
        } else if id == std_ids::STRING_TYPE {
            Ok((DataTypeV::String, p + 1))
        } else if id == std_ids::BOOL_TYPE {
            Ok((DataTypeV::Bool, p + 1))
        } else if id == std_ids::IDENTIFIER {
            Ok((DataTypeV::Custom(t[p].value@), p + 1))
        } else {
            Err(PErr::Unexpected(id, t[p].value@))
        }
    }
}

/// program := declaration*
pub open spec fn p_program(t: Seq<Token>, p: int, acc: Seq<StmtV>) -> Result<Seq<StmtV>, PErr>
    decreases t.len() - p, 30int,
{
    if p < 0 || p >= t.len() {
        Ok(acc)
    } else {
        match p_declaration(t, p) {
            Err(e) => Err(e),
            Ok((s, q)) => if p < q <= t.len() {
                p_program(t, q, acc.push(s))
            } else {
                Err(PErr::Stalled)
            },
        }
    }
}

/// declaration := varDecl | funcDecl | structDecl | statement
pub open spec fn p_declaration(t: Seq<Token>, p: int) -> Result<(StmtV, int), PErr>
    decreases t.len() - p, 20int,
{
    if at(t, p, std_ids::LET) {
        p_var(t, p + 1)
    } else if at(t, p, std_ids::FUNCTION) {
        p_function(t, p + 1)
    } else if at(t, p, std_ids::STRUCT) || at(t, p, std_ids::CLASS) {
        p_struct(t, p + 1)
    } else {
        p_statement(t, p)
    }
}

/// statement := ifStmt | whileStmt | returnStmt | expression
pub open spec fn p_statement(t: Seq<Token>, p: int) -> Result<(StmtV, int), PErr>
    decreases t.len() - p, 19int,
{
    if at(t, p, std_ids::IF) {
        p_if(t, p + 1)
    } else if at(t, p, std_ids::WHILE) {
        p_while(t, p + 1)
    } else if at(t, p, std_ids::RETURN) {
        p_return(t, p + 1)
    } else {
        match p_expression(t, p) {
            Err(e) => Err(e),
            Ok((e, q)) => Ok((StmtV::Expr(e), q)),
        }
    }
}

/// varDecl := LET IDENT (ASSIGN expression)?, from after LET; with no
/// initializer the value is zero.
pub open spec fn p_var(t: Seq<Token>, p: int) -> Result<(StmtV, int), PErr>
    decreases t.len() - p, 25int,
{
    match expect(t, p, std_ids::IDENTIFIER) {
        Err(e) => Err(e),
        Ok(q) => {
            let name = t[p].value@;
            if at(t, q, std_ids::ASSIGN) {
                match p_expression(t, q + 1) {
                    Err(e) => Err(e),
                    Ok((e, r)) => Ok((StmtV::Var(name, e), r)),
                }
            } else {
                Ok((StmtV::Var(name, ExprV::Number(Num { num: 0, den: 1 })), q))
            }
        },
    }
}

/// funcDecl := FUNC IDENT '(' (type IDENT (',' type IDENT)*)? ')' block,
/// from after FUNC.
pub open spec fn p_function(t: Seq<Token>, p: int) -> Result<(StmtV, int), PErr>
    decreases t.len() - p, 25int,
{
    match expect(t, p, std_ids::IDENTIFIER) {
        Err(e) => Err(e),
        Ok(q) => match expect(t, q, std_ids::L_PAREN) {
            Err(e) => Err(e),
            Ok(q) => {
                let params = if at(t, q, std_ids::R_PAREN) {
                    Ok((seq![], q))
                } else {
                    p_params(t, q, seq![])
                };
                match params {
                    Err(e) => Err(e),
                    Ok((ps, q1)) => if fwd(t, q, q1) {
                        match expect(t, q1, std_ids::R_PAREN) {
                            Err(e) => Err(e),
                            Ok(q2) => match expect(t, q2, std_ids::L_BRACE) {
                                Err(e) => Err(e),
                                Ok(q3) => match p_block(t, q3) {
                                    Err(e) => Err(e),
                                    Ok((body, q4)) => Ok((StmtV::Func(t[p].value@, ps, body), q4)),
                                },
                            },
                        }
                    } else {
                        Err(PErr::Stalled)
                    },
                }
            },
        },
    }
}

/// type IDENT (',' type IDENT)*
pub open spec fn p_params(t: Seq<Token>, p: int, acc: Seq<(Seq<char>, DataTypeV)>) -> Result<
    (Seq<(Seq<char>, DataTypeV)>, int),
    PErr,
>
    decreases t.len() - p, 2int,
{
    match p_type(t, p) {
        Err(e) => Err(e),
        Ok((ty, q)) => match expect(t, q, std_ids::IDENTIFIER) {
            Err(e) => Err(e),
            Ok(r) => {
                let acc = acc.push((t[q].value@, ty));
                if at(t, r, std_ids::COMMA) {
                    p_params(t, r + 1, acc)
                } else {
                    Ok((acc, r))
                }
            },
        },
    }
}

/// structDecl := (STRUCT|CLASS) IDENT '{' (IDENT ':' type ','?)* '}', from
/// after the keyword.
pub open spec fn p_struct(t: Seq<Token>, p: int) -> Result<(StmtV, int), PErr>
    decreases t.len() - p, 25int,
{
    match expect(t, p, std_ids::IDENTIFIER) {
        Err(e) => Err(e),
        Ok(q) => match expect(t, q, std_ids::L_BRACE) {
            Err(e) => Err(e),
            Ok(q) => match p_fields(t, q, seq![]) {
                Err(e) => Err(e),
                Ok((fs, r)) => Ok((StmtV::Struct(t[p].value@, fs), r)),
            },
        },
    }
}

/// (IDENT ':' type ','?)* '}'
pub open spec fn p_fields(t: Seq<Token>, p: int, acc: Seq<(Seq<char>, DataTypeV)>) -> Result<
    (Seq<(Seq<char>, DataTypeV)>, int),
    PErr,
>
    decreases t.len() - p, 2int,
{
    if at(t, p, std_ids::R_BRACE) || p < 0 || p >= t.len() {
        match expect(t, p, std_ids::R_BRACE) {
            Err(e) => Err(e),
            Ok(q) => Ok((acc, q)),
        }
    } else {
        match expect(t, p, std_ids::IDENTIFIER) {
            Err(e) => Err(e),
            Ok(q) => match expect(t, q, std_ids::COLON) {
                Err(e) => Err(e),
                Ok(q1) => match p_type(t, q1) {
                    Err(e) => Err(e),
                    Ok((ty, q2)) => {
                        let acc = acc.push((t[p].value@, ty));
                        if at(t, q2, std_ids::COMMA) {
                            p_fields(t, q2 + 1, acc)
                        } else {
                            p_fields(t, q2, acc)
                        }
                    },
                },
            },
        }
    }
}

/// block := '{' declaration* '}', from after '{'.
pub open spec fn p_block(t: Seq<Token>, p: int) -> Result<(Seq<StmtV>, int), PErr>
    decreases t.len() - p, 24int,
{
    p_block_rest(t, p, seq![])
}

pub open spec fn p_block_rest(t: Seq<Token>, p: int, acc: Seq<StmtV>) -> Result<(Seq<StmtV>, int), PErr>
    decreases t.len() - p, 23int,
{
    if at(t, p, std_ids::R_BRACE) || p < 0 || p >= t.len() {
        match expect(t, p, std_ids::R_BRACE) {
            Err(e) => Err(e),
            Ok(q) => Ok((acc, q)),
        }
    } else {
        match p_declaration(t, p) {
            Err(e) => Err(e),
            Ok((s, q)) => if p < q <= t.len() {
                p_block_rest(t, q, acc.push(s))
            } else {
                Err(PErr::Stalled)
            },
        }
    }
}

/// ifStmt := IF expression block (ELSE block)?, from after IF.
pub open spec fn p_if(t: Seq<Token>, p: int) -> Result<(StmtV, int), PErr>
    decreases t.len() - p, 25int,
{
    match p_expression(t, p) {
        Err(e) => Err(e),
        Ok((c, q)) => if fwd(t, p, q) {
            match expect(t, q, std_ids::L_BRACE) {
                Err(e) => Err(e),
                Ok(q1) => match p_block(t, q1) {
                    Err(e) => Err(e),
                    Ok((th, q2)) => if fwd(t, q1, q2) {
                        if at(t, q2, std_ids::ELSE) {
                            match expect(t, q2 + 1, std_ids::L_BRACE) {
                                Err(e) => Err(e),
                                Ok(q3) => match p_block(t, q3) {
                                    Err(e) => Err(e),
                                    Ok((el, q4)) => Ok((StmtV::If(c, th, Some(el)), q4)),
                                },
                            }
                        } else {
                            Ok((StmtV::If(c, th, None), q2))
                        }
                    } else {
                        Err(PErr::Stalled)
                    },
                },
            }
        } else {
            Err(PErr::Stalled)
        },
    }
}

/// whileStmt := WHILE expression block, from after WHILE.
pub open spec fn p_while(t: Seq<Token>, p: int) -> Result<(StmtV, int), PErr>
    decreases t.len() - p, 25int,
{
    match p_expression(t, p) {
        Err(e) => Err(e),
        Ok((c, q)) => if fwd(t, p, q) {
            match expect(t, q, std_ids::L_BRACE) {
                Err(e) => Err(e),
                Ok(q1) => match p_block(t, q1) {
                    Err(e) => Err(e),
                    Ok((body, q2)) => Ok((StmtV::While(c, body), q2)),
                },
            }
        } else {
            Err(PErr::Stalled)
        },
    }
}

/// returnStmt := RETURN expression?, from after RETURN; the value is left
/// out where the block or the input ends.
pub open spec fn p_return(t: Seq<Token>, p: int) -> Result<(StmtV, int), PErr>
    decreases t.len() - p, 25int,
{
    if p < 0 || p >= t.len() || at(t, p, std_ids::R_BRACE) {
        Ok((StmtV::Return(None), p))
    } else {
        match p_expression(t, p) {
            Err(e) => Err(e),
            Ok((e, q)) => Ok((StmtV::Return(Some(e)), q)),
        }
    }
}

/// expression := term (('<'|'>'|'<='|'>='|'=='|'!=') term)*
pub open spec fn p_expression(t: Seq<Token>, p: int) -> Result<(ExprV, int), PErr>
    decreases t.len() - p, 18int,
{
    match p_term(t, p) {
        Err(e) => Err(e),
        Ok((l, q)) => if fwd(t, p, q) {
            p_expression_rest(t, q, l)
        } else {
            Err(PErr::Stalled)
        },
    }
}

pub open spec fn p_expression_rest(t: Seq<Token>, p: int, left: ExprV) -> Result<(ExprV, int), PErr>
    decreases t.len() - p, 17int,
{
    match op_at(t, p, 0) {
        None => Ok((left, p)),
        Some(op) => match p_term(t, p + 1) {
            Err(e) => Err(e),
            Ok((r, q)) => if fwd(t, p + 1, q) {
                p_expression_rest(t, q, ExprV::Binary(Box::new(left), op, Box::new(r)))
            } else {
                Err(PErr::Stalled)
            },
        },
    }
}

/// term := factor (('+'|'-') factor)*
pub open spec fn p_term(t: Seq<Token>, p: int) -> Result<(ExprV, int), PErr>
    decreases t.len() - p, 16int,
{
    match p_factor(t, p) {
        Err(e) => Err(e),
        Ok((l, q)) => if fwd(t, p, q) {
            p_term_rest(t, q, l)
        } else {
            Err(PErr::Stalled)
        },
    }
}

pub open spec fn p_term_rest(t: Seq<Token>, p: int, left: ExprV) -> Result<(ExprV, int), PErr>
    decreases t.len() - p, 15int,
{
    match op_at(t, p, 1) {
        None => Ok((left, p)),
        Some(op) => match p_factor(t, p + 1) {
            Err(e) => Err(e),
            Ok((r, q)) => if fwd(t, p + 1, q) {
                p_term_rest(t, q, ExprV::Binary(Box::new(left), op, Box::new(r)))
            } else {
                Err(PErr::Stalled)
            },
        },
    }
}

/// factor := primary (('*'|'/') primary)*
pub open spec fn p_factor(t: Seq<Token>, p: int) -> Result<(ExprV, int), PErr>
    decreases t.len() - p, 14int,
{
    match p_primary(t, p) {
        Err(e) => Err(e),
        Ok((l, q)) => if fwd(t, p, q) {
            p_factor_rest(t, q, l)
        } else {
            Err(PErr::Stalled)
        },
    }
}

pub open spec fn p_factor_rest(t: Seq<Token>, p: int, left: ExprV) -> Result<(ExprV, int), PErr>
    decreases t.len() - p, 13int,
{
    match op_at(t, p, 2) {
        None => Ok((left, p)),
        Some(op) => match p_primary(t, p + 1) {
            Err(e) => Err(e),
            Ok((r, q)) => if fwd(t, p + 1, q) {
                p_factor_rest(t, q, ExprV::Binary(Box::new(left), op, Box::new(r)))
            } else {
                Err(PErr::Stalled)
            },
        },
    }
}

pub open spec fn callable_id(id: u32) -> bool {
    id == std_ids::IDENTIFIER || id == std_ids::PRINT || id == std_ids::INPUT || id == std_ids::LEN
}

/// primary := NUMBER | STRING | '(' expression ')'
///          | IDENT ('(' args? ')' | ('.' IDENT)*)
pub open spec fn p_primary(t: Seq<Token>, p: int) -> Result<(ExprV, int), PErr>
    decreases t.len() - p, 12int,
{
    if at(t, p, std_ids::L_PAREN) {
        match p_expression(t, p + 1) {
            Err(e) => Err(e),
            Ok((e, q)) => match expect(t, q, std_ids::R_PAREN) {
                Err(err) => Err(err),
                Ok(r) => Ok((e, r)),
            },
        }
    } else if p < 0 || p >= t.len() {
        Err(PErr::EndOfInput)
    } else {
        let id = t[p].std_token_id;
        if id == std_ids::INT_LITERAL || id == std_ids::FLOAT_LITERAL {
            match parse_literal(t[p].value@) {
                Some(n) => Ok((ExprV::Number(n), p + 1)),
                None => Err(PErr::InvalidNumber(t[p].value@)),
            }
        } else if id == std_ids::STRING_LITERAL {
            Ok((ExprV::Str(t[p].lexem@), p + 1))
        } else if callable_id(id) {
            if at(t, p + 1, std_ids::L_PAREN) {
                match p_args(t, p + 2) {
                    Err(e) => Err(e),
                    Ok((args, q)) => Ok((ExprV::Call(id, t[p].value@, args), q)),
                }
            } else {
                p_members(t, p + 1, ExprV::Ident(t[p].value@))
            }
        } else {
            Err(PErr::Unexpected(id, t[p].value@))
        }
    }
}

/// ('.' IDENT)*
pub open spec fn p_members(t: Seq<Token>, p: int, obj: ExprV) -> Result<(ExprV, int), PErr>
    decreases t.len() - p, 1int,
{
    if at(t, p, std_ids::DOT) {
        match expect(t, p + 1, std_ids::IDENTIFIER) {
            Err(e) => Err(e),
            Ok(q) => p_members(t, q, ExprV::Member(Box::new(obj), t[p + 1].value@)),
        }
    } else {
        Ok((obj, p))
    }
}

/// args? ')', from after '('.
pub open spec fn p_args(t: Seq<Token>, p: int) -> Result<(Seq<ExprV>, int), PErr>
    decreases t.len() - p, 22int,
{
    if at(t, p, std_ids::R_PAREN) {
        Ok((seq![], p + 1))
    } else {
        p_args_rest(t, p, seq![])
    }
}

/// expression (',' expression)* ')'
pub open spec fn p_args_rest(t: Seq<Token>, p: int, acc: Seq<ExprV>) -> Result<(Seq<ExprV>, int), PErr>
    decreases t.len() - p, 21int,
{
    match p_expression(t, p) {
        Err(e) => Err(e),
        Ok((e, q)) => if fwd(t, p, q) {
            let acc = acc.push(e);
            if at(t, q, std_ids::COMMA) {
                p_args_rest(t, q + 1, acc)
            } else {
                match expect(t, q, std_ids::R_PAREN) {
                    Err(err) => Err(err),
                    Ok(r) => Ok((acc, r)),
                }
            }
        } else {
            Err(PErr::Stalled)
        },
    }
}

/// What holds of a production's outcome: on success the position moved on
/// (strictly, where `strict`) and stays within the tokens; a failure is
/// never `Stalled`.
pub open spec fn progress<T>(r: Result<(T, int), PErr>, p: int, n: int, strict: bool) -> bool {
    match r {
        Ok((_, q)) => (if strict { p < q } else { p <= q }) && q <= n,
        Err(e) => !(e is Stalled),
    }
}

pub proof fn lemma_declaration(t: Seq<Token>, p: int)
    requires
        0 <= p <= t.len(),
    ensures
        progress(p_declaration(t, p), p, t.len() as int, true),
    decreases t.len() - p, 20int,
{
    if at(t, p, std_ids::LET) {
        lemma_var(t, p + 1);
    } else if at(t, p, std_ids::FUNCTION) {
        lemma_function(t, p + 1);
    } else if at(t, p, std_ids::STRUCT) || at(t, p, std_ids::CLASS) {
        lemma_struct(t, p + 1);
    } else {
        lemma_statement(t, p);
    }
}

pub proof fn lemma_statement(t: Seq<Token>, p: int)
    requires
        0 <= p <= t.len(),
    ensures
        progress(p_statement(t, p), p, t.len() as int, true),
    decreases t.len() - p, 19int,
{
    if at(t, p, std_ids::IF) {
        lemma_if(t, p + 1);
    } else if at(t, p, std_ids::WHILE) {
        lemma_while(t, p + 1);
    } else if at(t, p, std_ids::RETURN) {
        lemma_return(t, p + 1);
    } else {
        lemma_expression(t, p);
    }
}

pub proof fn lemma_var(t: Seq<Token>, p: int)
    requires
        0 <= p <= t.len(),
    ensures
        progress(p_var(t, p), p, t.len() as int, true),
    decreases t.len() - p, 25int,
{
    if at(t, p, std_ids::IDENTIFIER) && at(t, p + 1, std_ids::ASSIGN) {
        lemma_expression(t, p + 2);
    }
}

pub proof fn lemma_function(t: Seq<Token>, p: int)
    requires
        0 <= p <= t.len(),
    ensures
        progress(p_function(t, p), p, t.len() as int, true),
    decreases t.len() - p, 25int,
{
    if at(t, p, std_ids::IDENTIFIER) && at(t, p + 1, std_ids::L_PAREN) {
        let q = p + 2;
        if !at(t, q, std_ids::R_PAREN) {
            lemma_params(t, q, seq![]);
        }
        let params = if at(t, q, std_ids::R_PAREN) {
            Ok((seq![], q))
        } else {
            p_params(t, q, seq![])
        };
        if let Ok((ps, q1)) = params {
            if at(t, q1, std_ids::R_PAREN) && at(t, q1 + 1, std_ids::L_BRACE) {
                lemma_block(t, q1 + 2);
            }
        }
    }
}

pub proof fn lemma_params(t: Seq<Token>, p: int, acc: Seq<(Seq<char>, DataTypeV)>)
    requires
        0 <= p <= t.len(),
    ensures
        progress(p_params(t, p, acc), p, t.len() as int, true),
    decreases t.len() - p, 2int,
{
    if let Ok((ty, q)) = p_type(t, p) {
        if at(t, q, std_ids::IDENTIFIER) && at(t, q + 1, std_ids::COMMA) {
            lemma_params(t, q + 2, acc.push((t[q].value@, ty)));
        }
    }
}

pub proof fn lemma_struct(t: Seq<Token>, p: int)
    requires
        0 <= p <= t.len(),
    ensures
        progress(p_struct(t, p), p, t.len() as int, true),
    decreases t.len() - p, 25int,
{
    if at(t, p, std_ids::IDENTIFIER) && at(t, p + 1, std_ids::L_BRACE) {
        lemma_fields(t, p + 2, seq![]);
    }
}

pub proof fn lemma_fields(t: Seq<Token>, p: int, acc: Seq<(Seq<char>, DataTypeV)>)
    requires
        0 <= p <= t.len(),
    ensures
        progress(p_fields(t, p, acc), p, t.len() as int, true),
    decreases t.len() - p, 2int,
{
    if !(at(t, p, std_ids::R_BRACE) || p < 0 || p >= t.len()) {
        if at(t, p, std_ids::IDENTIFIER) && at(t, p + 1, std_ids::COLON) {
            if let Ok((ty, q2)) = p_type(t, p + 2) {
                let acc2 = acc.push((t[p].value@, ty));
                if at(t, q2, std_ids::COMMA) {
                    lemma_fields(t, q2 + 1, acc2);
                } else {
                    lemma_fields(t, q2, acc2);
                }
            }
        }
    }
}

pub proof fn lemma_block(t: Seq<Token>, p: int)
    requires
        0 <= p <= t.len(),
    ensures
        progress(p_block(t, p), p, t.len() as int, true),
    decreases t.len() - p, 24int,
{
    lemma_block_rest(t, p, seq![]);
}

pub proof fn lemma_block_rest(t: Seq<Token>, p: int, acc: Seq<StmtV>)
    requires
        0 <= p <= t.len(),
    ensures
        progress(p_block_rest(t, p, acc), p, t.len() as int, true),
    decreases t.len() - p, 23int,
{
    if !(at(t, p, std_ids::R_BRACE) || p < 0 || p >= t.len()) {
        lemma_declaration(t, p);
        if let Ok((s, q)) = p_declaration(t, p) {
            lemma_block_rest(t, q, acc.push(s));
        }
    }
}

pub proof fn lemma_if(t: Seq<Token>, p: int)
    requires
        0 <= p <= t.len(),
    ensures
        progress(p_if(t, p), p, t.len() as int, true),
    decreases t.len() - p, 25int,
{
    lemma_expression(t, p);
    if let Ok((c, q)) = p_expression(t, p) {
        if at(t, q, std_ids::L_BRACE) {
            lemma_block(t, q + 1);
            if let Ok((th, q2)) = p_block(t, q + 1) {
                if at(t, q2, std_ids::ELSE) && at(t, q2 + 1, std_ids::L_BRACE) {
                    lemma_block(t, q2 + 2);
                }
            }
        }
    }
}

pub proof fn lemma_while(t: Seq<Token>, p: int)
    requires
        0 <= p <= t.len(),
    ensures
        progress(p_while(t, p), p, t.len() as int, true),
    decreases t.len() - p, 25int,
{
    lemma_expression(t, p);
    if let Ok((c, q)) = p_expression(t, p) {
        if at(t, q, std_ids::L_BRACE) {
            lemma_block(t, q + 1);
        }
    }
}

pub proof fn lemma_return(t: Seq<Token>, p: int)
    requires
        0 <= p <= t.len(),
    ensures
        progress(p_return(t, p), p, t.len() as int, false),
    decreases t.len() - p, 25int,
{
    if !(p < 0 || p >= t.len() || at(t, p, std_ids::R_BRACE)) {
        lemma_expression(t, p);
    }
}

pub proof fn lemma_expression(t: Seq<Token>, p: int)
    requires
        0 <= p <= t.len(),
    ensures
        progress(p_expression(t, p), p, t.len() as int, true),
    decreases t.len() - p, 18int,
{
    lemma_term(t, p);
    if let Ok((l, q)) = p_term(t, p) {
        lemma_expression_rest(t, q, l);
    }
}

pub proof fn lemma_expression_rest(t: Seq<Token>, p: int, left: ExprV)
    requires
        0 <= p <= t.len(),
    ensures
        progress(p_expression_rest(t, p, left), p, t.len() as int, false),
    decreases t.len() - p, 17int,
{
    if let Some(op) = op_at(t, p, 0) {
        lemma_term(t, p + 1);
        if let Ok((r, q)) = p_term(t, p + 1) {
            lemma_expression_rest(t, q, ExprV::Binary(Box::new(left), op, Box::new(r)));
        }
    }
}

pub proof fn lemma_term(t: Seq<Token>, p: int)
    requires
        0 <= p <= t.len(),
    ensures
        progress(p_term(t, p), p, t.len() as int, true),
    decreases t.len() - p, 16int,
{
    lemma_factor(t, p);
    if let Ok((l, q)) = p_factor(t, p) {
        lemma_term_rest(t, q, l);
    }
}

pub proof fn lemma_term_rest(t: Seq<Token>, p: int, left: ExprV)
    requires
        0 <= p <= t.len(),
    ensures
        progress(p_term_rest(t, p, left), p, t.len() as int, false),
    decreases t.len() - p, 15int,
{
    if let Some(op) = op_at(t, p, 1) {
        lemma_factor(t, p + 1);
        if let Ok((r, q)) = p_factor(t, p + 1) {
            lemma_term_rest(t, q, ExprV::Binary(Box::new(left), op, Box::new(r)));
        }
    }
}

pub proof fn lemma_factor(t: Seq<Token>, p: int)
    requires
        0 <= p <= t.len(),
    ensures
        progress(p_factor(t, p), p, t.len() as int, true),
    decreases t.len() - p, 14int,
{
    lemma_primary(t, p);
    if let Ok((l, q)) = p_primary(t, p) {
        lemma_factor_rest(t, q, l);
    }
}

pub proof fn lemma_factor_rest(t: Seq<Token>, p: int, left: ExprV)
    requires
        0 <= p <= t.len(),
    ensures
        progress(p_factor_rest(t, p, left), p, t.len() as int, false),
    decreases t.len() - p, 13int,
{
    if let Some(op) = op_at(t, p, 2) {
        lemma_primary(t, p + 1);
        if let Ok((r, q)) = p_primary(t, p + 1) {
            lemma_factor_rest(t, q, ExprV::Binary(Box::new(left), op, Box::new(r)));
        }
    }
}

pub proof fn lemma_primary(t: Seq<Token>, p: int)
    requires
        0 <= p <= t.len(),
    ensures
        progress(p_primary(t, p), p, t.len() as int, true),
    decreases t.len() - p, 12int,
{
    if at(t, p, std_ids::L_PAREN) {
        lemma_expression(t, p + 1);
    } else if 0 <= p < t.len() && callable_id(t[p].std_token_id) {
        if at(t, p + 1, std_ids::L_PAREN) {
            lemma_args(t, p + 2);
        } else {
            lemma_members(t, p + 1, ExprV::Ident(t[p].value@));
        }
    }
}

pub proof fn lemma_members(t: Seq<Token>, p: int, obj: ExprV)
    requires
        0 <= p <= t.len(),
    ensures
        progress(p_members(t, p, obj), p, t.len() as int, false),
    decreases t.len() - p, 1int,
{
    if at(t, p, std_ids::DOT) && at(t, p + 1, std_ids::IDENTIFIER) {
        lemma_members(t, p + 2, ExprV::Member(Box::new(obj), t[p + 1].value@));
    }
}

pub proof fn lemma_args(t: Seq<Token>, p: int)
    requires
        0 <= p <= t.len(),
    ensures
        progress(p_args(t, p), p, t.len() as int, true),
    decreases t.len() - p, 22int,
{
    if !at(t, p, std_ids::R_PAREN) {
        lemma_args_rest(t, p, seq![]);
    }
}

pub proof fn lemma_args_rest(t: Seq<Token>, p: int, acc: Seq<ExprV>)
    requires
        0 <= p <= t.len(),
    ensures
        progress(p_args_rest(t, p, acc), p, t.len() as int, true),
    decreases t.len() - p, 21int,
{
    lemma_expression(t, p);
    if let Ok((e, q)) = p_expression(t, p) {
        if at(t, q, std_ids::COMMA) {
            lemma_args_rest(t, q + 1, acc.push(e));
        }
    }
}

/// A program's parse never stops for want of progress: every production
/// that succeeds moves past at least one token, so the guard in `p_program`
/// and the productions never fires.
pub proof fn lemma_program(t: Seq<Token>, p: int, acc: Seq<StmtV>)
    requires
        0 <= p <= t.len(),
    ensures
        p_program(t, p, acc) != Err::<Seq<StmtV>, PErr>(PErr::Stalled),
    decreases t.len() - p, 30int,
{
    if 0 <= p < t.len() {
        lemma_declaration(t, p);
        if let Ok((s, q)) = p_declaration(t, p) {
            lemma_program(t, q, acc.push(s));
        }
    }
}

} // verus!
