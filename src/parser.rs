//! The recursive-descent parser over tokens, proved to read as `grammar`
//! says.
use vstd::prelude::*;
use crate::ast::{
    all_exprs_v, all_stmts_v, expr_v, lemma_exprs_push, lemma_stmts_push, stmt_v, type_v, typed_v, BinOp, DataType,
    DataTypeV, Expr, ExprV, Stmt, StmtV,
};
use crate::grammar::{
    at, expect, op_at, p_args, p_args_rest, p_block, p_block_rest, p_declaration, p_expression, p_expression_rest,
    p_factor, p_factor_rest, p_fields, p_function, p_if, p_members, p_params, p_primary, p_program, p_return,
    p_statement, p_struct, p_term, p_term_rest, p_type, p_var, p_while, PErr,
};
use crate::number::Num;
use crate::std_ids;
use crate::tokenizer::Token;

verus! {

/// Why a parse stopped: a structural error ends the whole parse.
#[derive(Debug)]
pub enum ParseError {
    /// The grammar needed the id `expected` where a token with id `found`
    /// and text `lexeme` stands.
    Expected { expected: u32, found: u32, lexeme: String },
    /// No production starts with the token with id `found` and text `lexeme`.
    Unexpected { found: u32, lexeme: String },
    /// The tokens ran out.
    EndOfInput,
    /// A number token whose text is no decimal literal of at most
    /// `MAX_LITERAL_DIGITS` digits.
    InvalidNumber { lexeme: String },
}

pub open spec fn err_v(e: ParseError) -> PErr {
    match e {
        ParseError::Expected { expected, found, lexeme } => PErr::Expected(expected, found, lexeme@),
        ParseError::Unexpected { found, lexeme } => PErr::Unexpected(found, lexeme@),
        ParseError::EndOfInput => PErr::EndOfInput,
        ParseError::InvalidNumber { lexeme } => PErr::InvalidNumber(lexeme@),
    }
}

pub open spec fn res_expr(r: Result<Expr, ParseError>, cur: int) -> Result<(ExprV, int), PErr> {
    match r {
        Ok(e) => Ok((expr_v(&e), cur)),
        Err(e) => Err(err_v(e)),
    }
}

pub open spec fn res_stmt(r: Result<Stmt, ParseError>, cur: int) -> Result<(StmtV, int), PErr> {
    match r {
        Ok(s) => Ok((stmt_v(&s), cur)),
        Err(e) => Err(err_v(e)),
    }
}

pub open spec fn res_stmts(r: Result<Vec<Stmt>, ParseError>, cur: int) -> Result<(Seq<StmtV>, int), PErr> {
    match r {
        Ok(v) => Ok((all_stmts_v(&v), cur)),
        Err(e) => Err(err_v(e)),
    }
}

pub open spec fn res_exprs(r: Result<Vec<Expr>, ParseError>, cur: int) -> Result<(Seq<ExprV>, int), PErr> {
    match r {
        Ok(v) => Ok((all_exprs_v(&v), cur)),
        Err(e) => Err(err_v(e)),
    }
}

pub open spec fn res_typed(r: Result<Vec<(String, DataType)>, ParseError>, cur: int) -> Result<
    (Seq<(Seq<char>, DataTypeV)>, int),
    PErr,
> {
    match r {
        Ok(v) => Ok((typed_v(v@), cur)),
        Err(e) => Err(err_v(e)),
    }
}

pub struct AstParser {
    tokens: Vec<Token>,
    current: usize,
}

impl AstParser {
    pub closed spec fn toks(&self) -> Seq<Token> {
        self.tokens@
    }

    pub closed spec fn pos(&self) -> int {
        self.current as int
    }

    pub closed spec fn wf(&self) -> bool {
        self.current <= self.tokens@.len()
    }

    /// A parser at the first of `tokens`.
    pub fn new(tokens: Vec<Token>) -> (r: AstParser)
        ensures
            r.toks() == tokens@,
            r.pos() == 0,
            r.wf(),
    {
        AstParser { tokens, current: 0 }
    }

    /// Parses the whole token sequence into statements; on a structural
    /// error nothing but the error comes back.
    pub fn parse(&mut self) -> (r: Result<Vec<Stmt>, ParseError>)
        requires
            old(self).wf(),
        ensures
            match r {
                Ok(v) => p_program(old(self).toks(), old(self).pos(), seq![]) == Ok::<Seq<StmtV>, PErr>(all_stmts_v(&v)),
                Err(e) => p_program(old(self).toks(), old(self).pos(), seq![]) == Err::<Seq<StmtV>, PErr>(err_v(e)),
            },
    {
        let ghost t = self.toks();
        let ghost p0 = self.pos();
        let mut statements: Vec<Stmt> = Vec::new();
        assert(all_stmts_v(&statements) =~= seq![]);
        while !self.is_at_end()
            invariant
                self.wf(),
                self.toks() == t,
                t == old(self).toks(),
                p0 == old(self).pos(),
                p_program(t, p0, seq![]) == p_program(t, self.pos(), all_stmts_v(&statements)),
            decreases t.len() - self.pos(),
        {
            let ghost before = statements;
            match self.declaration() {
                Err(e) => return Err(e),
                Ok(s) => {
                    statements.push(s);
                    proof {
                        assert(statements@.take(before@.len() as int) =~= before@);
                        lemma_stmts_push(&before, &statements);
                    }
                },
            }
        }
        Ok(statements)
    }

    pub fn is_at_end(&self) -> (r: bool)
        ensures
            r == (self.pos() >= self.toks().len()),
    {
        self.current >= self.tokens.len()
    }

    pub fn peek(&self) -> (r: &Token)
        requires
            self.pos() < self.toks().len(),
        ensures
            *r == self.toks()[self.pos()],
    {
        &self.tokens[self.current]
    }

    pub fn previous(&self) -> (r: &Token)
        requires
            0 < self.pos() <= self.toks().len(),
        ensures
            *r == self.toks()[self.pos() - 1],
    {
        &self.tokens[self.current - 1]
    }

    /// Whether the next token has the id `id`.
    pub fn check_id(&self, id: u32) -> (r: bool)
        ensures
            r == at(self.toks(), self.pos(), id),
    {
        !self.is_at_end() && self.tokens[self.current].std_token_id == id
    }

    /// Moves past the next token, if there is one.
    pub fn advance(&mut self)
        ensures
            final(self).toks() == old(self).toks(),
            final(self).pos() == (if old(self).pos() < old(self).toks().len() {
                old(self).pos() + 1
            } else {
                old(self).pos()
            }),
    {
        if self.current < self.tokens.len() {
            self.current = self.current + 1;
        }
    }

    /// Moves past the next token where it has the id `id`.
    pub fn match_id(&mut self, id: u32) -> (r: bool)
        ensures
            final(self).toks() == old(self).toks(),
            r == at(old(self).toks(), old(self).pos(), id),
            final(self).pos() == old(self).pos() + if r { 1int } else { 0int },
    {
        if self.check_id(id) {
            self.advance();
            true
        } else {
            false
        }
    }

    /// Moves past the next token, which must have the id `id`.
    pub fn consume_id(&mut self, id: u32) -> (r: Result<(), ParseError>)
        ensures
            final(self).toks() == old(self).toks(),
            match expect(old(self).toks(), old(self).pos(), id) {
                Ok(q) => r is Ok && final(self).pos() == q,
                Err(e) => r matches Err(e2) && err_v(e2) == e && final(self).pos() == old(self).pos(),
            },
    {
        if self.check_id(id) {
            self.advance();
            Ok(())
        } else if self.is_at_end() {
            Err(ParseError::EndOfInput)
        } else {
            let t = self.peek();
            Err(ParseError::Expected { expected: id, found: t.std_token_id, lexeme: t.value.clone() })
        }
    }

    /// The error for a token that no production starts with, at the next
    /// token.
    fn unexpected(&self) -> (r: ParseError)
        ensures
            self.pos() < self.toks().len() ==> err_v(r) == PErr::Unexpected(
                self.toks()[self.pos()].std_token_id,
                self.toks()[self.pos()].value@,
            ),
            self.pos() >= self.toks().len() ==> err_v(r) == PErr::EndOfInput,
    {
        if self.is_at_end() {
            ParseError::EndOfInput
        } else {
            let t = self.peek();
            ParseError::Unexpected { found: t.std_token_id, lexeme: t.value.clone() }
        }
    }

    /// type := INT_TYPE | FLOAT_TYPE | STRING_TYPE | BOOL_TYPE | IDENT
    pub fn parse_type(&mut self) -> (r: Result<DataType, ParseError>)
        requires
            old(self).wf(),
        ensures
            final(self).toks() == old(self).toks(),
            final(self).wf(),
            old(self).pos() <= final(self).pos(),
            match r {
                Ok(d) => p_type(old(self).toks(), old(self).pos()) == Ok::<(DataTypeV, int), PErr>((type_v(d), final(self).pos())),
                Err(e) => p_type(old(self).toks(), old(self).pos()) == Err::<(DataTypeV, int), PErr>(err_v(e)),
            },
    {
        if self.is_at_end() {
            return Err(ParseError::EndOfInput);
        }
        let id = self.peek().std_token_id;
        let d = if id == std_ids::INT_TYPE {
            DataType::Int
        } else if id == std_ids::FLOAT_TYPE {
            DataType::Float
        } else if id == std_ids::STRING_TYPE {
            DataType::String
        } else if id == std_ids::BOOL_TYPE {
            DataType::Bool
        } else if id == std_ids::IDENTIFIER {
            DataType::Custom(self.peek().value.clone())
        } else {
            return Err(self.unexpected());
        };
        self.advance();
        Ok(d)
    }

    /// declaration := varDecl | funcDecl | structDecl | statement
    fn declaration(&mut self) -> (r: Result<Stmt, ParseError>)
        requires
            old(self).wf(),
        ensures
            final(self).toks() == old(self).toks(),
            final(self).wf(),
            old(self).pos() <= final(self).pos(),
            r is Ok ==> old(self).pos() < final(self).pos(),
            res_stmt(r, final(self).pos()) == p_declaration(old(self).toks(), old(self).pos()),
        decreases old(self).toks().len() - old(self).pos(), 20int,
    {
        if self.match_id(std_ids::LET) {
            return self.var_declaration();
        }
        if self.match_id(std_ids::FUNCTION) {
            return self.function_declaration();
        }
        if self.check_id(std_ids::STRUCT) || self.check_id(std_ids::CLASS) {
            self.advance();
            return self.struct_declaration();
        }
        self.statement()
    }

    /// statement := ifStmt | whileStmt | returnStmt | expression
    fn statement(&mut self) -> (r: Result<Stmt, ParseError>)
        requires
            old(self).wf(),
        ensures
            final(self).toks() == old(self).toks(),
            final(self).wf(),
            old(self).pos() <= final(self).pos(),
            r is Ok ==> old(self).pos() < final(self).pos(),
            res_stmt(r, final(self).pos()) == p_statement(old(self).toks(), old(self).pos()),
        decreases old(self).toks().len() - old(self).pos(), 19int,
    {
        if self.match_id(std_ids::IF) {
            return self.if_statement();
        }
        if self.match_id(std_ids::WHILE) {
            return self.while_statement();
        }
        if self.match_id(std_ids::RETURN) {
            return self.return_statement();
        }
        match self.expression() {
            Ok(e) => Ok(Stmt::Expression(e)),
            Err(e) => Err(e),
        }
    }

    /// varDecl, after LET; with no initializer the value is zero.
    fn var_declaration(&mut self) -> (r: Result<Stmt, ParseError>)
        requires
            old(self).wf(),
        ensures
            final(self).toks() == old(self).toks(),
            final(self).wf(),
            old(self).pos() <= final(self).pos(),
            res_stmt(r, final(self).pos()) == p_var(old(self).toks(), old(self).pos()),
        decreases old(self).toks().len() - old(self).pos(), 25int,
    {
        match self.consume_id(std_ids::IDENTIFIER) {
            Err(e) => return Err(e),
            Ok(()) => {},
        }
        let name = self.previous().value.clone();
        if self.match_id(std_ids::ASSIGN) {
            match self.expression() {
                Ok(e) => Ok(Stmt::VariableDeclaration { name, value: e }),
                Err(e) => Err(e),
            }
        } else {
            Ok(Stmt::VariableDeclaration { name, value: Expr::Number(Num::integer(0)) })
        }
    }

    /// funcDecl, after the FUNC keyword.
    fn function_declaration(&mut self) -> (r: Result<Stmt, ParseError>)
        requires
            old(self).wf(),
        ensures
            final(self).toks() == old(self).toks(),
            final(self).wf(),
            old(self).pos() <= final(self).pos(),
            res_stmt(r, final(self).pos()) == p_function(old(self).toks(), old(self).pos()),
        decreases old(self).toks().len() - old(self).pos(), 25int,
    {
        match self.consume_id(std_ids::IDENTIFIER) {
            Err(e) => return Err(e),
            Ok(()) => {},
        }
        let name = self.previous().value.clone();
        match self.consume_id(std_ids::L_PAREN) {
            Err(e) => return Err(e),
            Ok(()) => {},
        }
        let params = if self.check_id(std_ids::R_PAREN) {
            let ps: Vec<(String, DataType)> = Vec::new();
            assert(typed_v(ps@) =~= seq![]);
            ps
        } else {
            match self.params() {
                Ok(ps) => ps,
                Err(e) => return Err(e),
            }
        };
        match self.consume_id(std_ids::R_PAREN) {
            Err(e) => return Err(e),
            Ok(()) => {},
        }
        match self.consume_id(std_ids::L_BRACE) {
            Err(e) => return Err(e),
            Ok(()) => {},
        }
        match self.block() {
            Ok(body) => Ok(Stmt::FunctionDeclaration { name, params, body }),
            Err(e) => Err(e),
        }
    }

    /// type IDENT (',' type IDENT)*
    fn params(&mut self) -> (r: Result<Vec<(String, DataType)>, ParseError>)
        requires
            old(self).wf(),
        ensures
            final(self).toks() == old(self).toks(),
            final(self).wf(),
            old(self).pos() <= final(self).pos(),
            res_typed(r, final(self).pos()) == p_params(old(self).toks(), old(self).pos(), seq![]),
        decreases old(self).toks().len() - old(self).pos(), 2int,
    {
        let ghost t = self.toks();
        let ghost p0 = self.pos();
        let mut ps: Vec<(String, DataType)> = Vec::new();
        assert(typed_v(ps@) =~= seq![]);
        loop
            invariant
                self.wf(),
                self.toks() == old(self).toks(),
                t == old(self).toks(),
                p0 == old(self).pos(),
                p0 <= self.pos(),
                p_params(t, p0, seq![]) == p_params(t, self.pos(), typed_v(ps@)),
            decreases t.len() - self.pos(),
        {
            let ty = match self.parse_type() {
                Ok(ty) => ty,
                Err(e) => return Err(e),
            };
            match self.consume_id(std_ids::IDENTIFIER) {
                Err(e) => return Err(e),
                Ok(()) => {},
            }
            let name = self.previous().value.clone();
            let ghost before = ps@;
            ps.push((name, ty));
            assert(typed_v(ps@) =~= typed_v(before).push((name@, type_v(ty))));
            if !self.match_id(std_ids::COMMA) {
                return Ok(ps);
            }
        }
    }

    /// structDecl, after the STRUCT or CLASS keyword.
    fn struct_declaration(&mut self) -> (r: Result<Stmt, ParseError>)
        requires
            old(self).wf(),
        ensures
            final(self).toks() == old(self).toks(),
            final(self).wf(),
            old(self).pos() <= final(self).pos(),
            res_stmt(r, final(self).pos()) == p_struct(old(self).toks(), old(self).pos()),
        decreases old(self).toks().len() - old(self).pos(), 25int,
    {
        match self.consume_id(std_ids::IDENTIFIER) {
            Err(e) => return Err(e),
            Ok(()) => {},
        }
        let name = self.previous().value.clone();
        match self.consume_id(std_ids::L_BRACE) {
            Err(e) => return Err(e),
            Ok(()) => {},
        }
        let ghost t = self.toks();
        let ghost q0 = self.pos();
        let mut fields: Vec<(String, DataType)> = Vec::new();
        assert(typed_v(fields@) =~= seq![]);
        loop
            invariant
                self.wf(),
                self.toks() == old(self).toks(),
                t == old(self).toks(),
                old(self).pos() <= q0 <= self.pos(),
                name@ == t[old(self).pos()].value@,
                p_struct(t, old(self).pos()) == (match p_fields(t, q0, seq![]) {
                    Err(e) => Err(e),
                    Ok((fs, r)) => Ok((StmtV::Struct(name@, fs), r)),
                }),
                p_fields(t, q0, seq![]) == p_fields(t, self.pos(), typed_v(fields@)),
            decreases t.len() - self.pos(),
        {
            if self.check_id(std_ids::R_BRACE) || self.is_at_end() {
                return match self.consume_id(std_ids::R_BRACE) {
                    Err(e) => Err(e),
                    Ok(()) => Ok(Stmt::StructDeclaration { name, fields }),
                };
            }
            match self.consume_id(std_ids::IDENTIFIER) {
                Err(e) => return Err(e),
                Ok(()) => {},
            }
            let field_name = self.previous().value.clone();
            match self.consume_id(std_ids::COLON) {
                Err(e) => return Err(e),
                Ok(()) => {},
            }
            let field_type = match self.parse_type() {
                Ok(ty) => ty,
                Err(e) => return Err(e),
            };
            let ghost before = fields@;
            fields.push((field_name, field_type));
            assert(typed_v(fields@) =~= typed_v(before).push((field_name@, type_v(field_type))));
            self.match_id(std_ids::COMMA);
        }
    }

    /// block, after '{': declarations up to the closing '}'.
    fn block(&mut self) -> (r: Result<Vec<Stmt>, ParseError>)
        requires
            old(self).wf(),
        ensures
            final(self).toks() == old(self).toks(),
            final(self).wf(),
            old(self).pos() <= final(self).pos(),
            res_stmts(r, final(self).pos()) == p_block(old(self).toks(), old(self).pos()),
        decreases old(self).toks().len() - old(self).pos(), 24int,
    {
        let ghost t = self.toks();
        let ghost p0 = self.pos();
        let mut statements: Vec<Stmt> = Vec::new();
        assert(all_stmts_v(&statements) =~= seq![]);
        loop
            invariant
                self.wf(),
                self.toks() == old(self).toks(),
                t == old(self).toks(),
                p0 == old(self).pos(),
                p0 <= self.pos(),
                p_block(t, p0) == p_block_rest(t, self.pos(), all_stmts_v(&statements)),
            decreases t.len() - self.pos(),
        {
            if self.check_id(std_ids::R_BRACE) || self.is_at_end() {
                return match self.consume_id(std_ids::R_BRACE) {
                    Err(e) => Err(e),
                    Ok(()) => Ok(statements),
                };
            }
            let ghost before = statements;
            match self.declaration() {
                Err(e) => return Err(e),
                Ok(s) => {
                    statements.push(s);
                    proof {
                        assert(statements@.take(before@.len() as int) =~= before@);
                        lemma_stmts_push(&before, &statements);
                    }
                },
            }
        }
    }

    /// ifStmt, after IF.
    fn if_statement(&mut self) -> (r: Result<Stmt, ParseError>)
        requires
            old(self).wf(),
        ensures
            final(self).toks() == old(self).toks(),
            final(self).wf(),
            old(self).pos() <= final(self).pos(),
            res_stmt(r, final(self).pos()) == p_if(old(self).toks(), old(self).pos()),
        decreases old(self).toks().len() - old(self).pos(), 25int,
    {
        let condition = match self.expression() {
            Ok(e) => e,
            Err(e) => return Err(e),
        };
        match self.consume_id(std_ids::L_BRACE) {
            Err(e) => return Err(e),
            Ok(()) => {},
        }
        let then_branch = match self.block() {
            Ok(b) => b,
            Err(e) => return Err(e),
        };
        let else_branch = if self.match_id(std_ids::ELSE) {
            match self.consume_id(std_ids::L_BRACE) {
                Err(e) => return Err(e),
                Ok(()) => {},
            }
            match self.block() {
                Ok(b) => Some(b),
                Err(e) => return Err(e),
            }
        } else {
            None
        };
        Ok(Stmt::If { condition, then_branch, else_branch })
    }

    /// whileStmt, after WHILE.
    fn while_statement(&mut self) -> (r: Result<Stmt, ParseError>)
        requires
            old(self).wf(),
        ensures
            final(self).toks() == old(self).toks(),
            final(self).wf(),
            old(self).pos() <= final(self).pos(),
            res_stmt(r, final(self).pos()) == p_while(old(self).toks(), old(self).pos()),
        decreases old(self).toks().len() - old(self).pos(), 25int,
    {
        let condition = match self.expression() {
            Ok(e) => e,
            Err(e) => return Err(e),
        };
        match self.consume_id(std_ids::L_BRACE) {
            Err(e) => return Err(e),
            Ok(()) => {},
        }
        match self.block() {
            Ok(body) => Ok(Stmt::While { condition, body }),
            Err(e) => Err(e),
        }
    }

    /// returnStmt, after RETURN.
    fn return_statement(&mut self) -> (r: Result<Stmt, ParseError>)
        requires
            old(self).wf(),
        ensures
            final(self).toks() == old(self).toks(),
            final(self).wf(),
            old(self).pos() <= final(self).pos(),
            res_stmt(r, final(self).pos()) == p_return(old(self).toks(), old(self).pos()),
        decreases old(self).toks().len() - old(self).pos(), 25int,
    {
        if self.is_at_end() || self.check_id(std_ids::R_BRACE) {
            return Ok(Stmt::Return { value: None });
        }
        match self.expression() {
            Ok(e) => Ok(Stmt::Return { value: Some(e) }),
            Err(e) => Err(e),
        }
    }

    /// expression := term (comparison term)*
    fn expression(&mut self) -> (r: Result<Expr, ParseError>)
        requires
            old(self).wf(),
        ensures
            final(self).toks() == old(self).toks(),
            final(self).wf(),
            old(self).pos() <= final(self).pos(),
            r is Ok ==> old(self).pos() < final(self).pos(),
            res_expr(r, final(self).pos()) == p_expression(old(self).toks(), old(self).pos()),
        decreases old(self).toks().len() - old(self).pos(), 18int,
    {
        let ghost t = self.toks();
        let ghost p0 = self.pos();
        let mut expr = match self.term() {
            Ok(e) => e,
            Err(e) => return Err(e),
        };
        loop
            invariant
                self.wf(),
                self.toks() == old(self).toks(),
                t == old(self).toks(),
                p0 == old(self).pos(),
                p0 < self.pos(),
                p_expression(t, p0) == p_expression_rest(t, self.pos(), expr_v(&expr)),
            decreases t.len() - self.pos(),
        {
            match self.operator_at(0) {
                None => return Ok(expr),
                Some(op) => {
                    self.advance();
                    let right = match self.term() {
                        Ok(e) => e,
                        Err(e) => return Err(e),
                    };
                    let ghost lv = expr_v(&expr);
                    expr = Expr::BinaryOp { left: Box::new(expr), op, right: Box::new(right) };
                    assert(expr_v(&expr) == ExprV::Binary(Box::new(lv), op, Box::new(expr_v(&right))));
                },
            }
        }
    }

    /// term := factor (('+'|'-') factor)*
    fn term(&mut self) -> (r: Result<Expr, ParseError>)
        requires
            old(self).wf(),
        ensures
            final(self).toks() == old(self).toks(),
            final(self).wf(),
            old(self).pos() <= final(self).pos(),
            r is Ok ==> old(self).pos() < final(self).pos(),
            res_expr(r, final(self).pos()) == p_term(old(self).toks(), old(self).pos()),
        decreases old(self).toks().len() - old(self).pos(), 16int,
    {
        let ghost t = self.toks();
        let ghost p0 = self.pos();
        let mut expr = match self.factor() {
            Ok(e) => e,
            Err(e) => return Err(e),
        };
        loop
            invariant
                self.wf(),
                self.toks() == old(self).toks(),
                t == old(self).toks(),
                p0 == old(self).pos(),
                p0 < self.pos(),
                p_term(t, p0) == p_term_rest(t, self.pos(), expr_v(&expr)),
            decreases t.len() - self.pos(),
        {
            match self.operator_at(1) {
                None => return Ok(expr),
                Some(op) => {
                    self.advance();
                    let right = match self.factor() {
                        Ok(e) => e,
                        Err(e) => return Err(e),
                    };
                    let ghost lv = expr_v(&expr);
                    expr = Expr::BinaryOp { left: Box::new(expr), op, right: Box::new(right) };
                    assert(expr_v(&expr) == ExprV::Binary(Box::new(lv), op, Box::new(expr_v(&right))));
                },
            }
        }
    }

    /// factor := primary (('*'|'/') primary)*
    fn factor(&mut self) -> (r: Result<Expr, ParseError>)
        requires
            old(self).wf(),
        ensures
            final(self).toks() == old(self).toks(),
            final(self).wf(),
            old(self).pos() <= final(self).pos(),
            r is Ok ==> old(self).pos() < final(self).pos(),
            res_expr(r, final(self).pos()) == p_factor(old(self).toks(), old(self).pos()),
        decreases old(self).toks().len() - old(self).pos(), 14int,
    {
        let ghost t = self.toks();
        let ghost p0 = self.pos();
        let mut expr = match self.primary() {
            Ok(e) => e,
            Err(e) => return Err(e),
        };
        loop
            invariant
                self.wf(),
                self.toks() == old(self).toks(),
                t == old(self).toks(),
                p0 == old(self).pos(),
                p0 < self.pos(),
                p_factor(t, p0) == p_factor_rest(t, self.pos(), expr_v(&expr)),
            decreases t.len() - self.pos(),
        {
            match self.operator_at(2) {
                None => return Ok(expr),
                Some(op) => {
                    self.advance();
                    let right = match self.primary() {
                        Ok(e) => e,
                        Err(e) => return Err(e),
                    };
                    let ghost lv = expr_v(&expr);
                    expr = Expr::BinaryOp { left: Box::new(expr), op, right: Box::new(right) };
                    assert(expr_v(&expr) == ExprV::Binary(Box::new(lv), op, Box::new(expr_v(&right))));
                },
            }
        }
    }

    /// primary := NUMBER | STRING | '(' expression ')' | IDENT ('(' args? ')' | ('.' IDENT)*)
    fn primary(&mut self) -> (r: Result<Expr, ParseError>)
        requires
            old(self).wf(),
        ensures
            final(self).toks() == old(self).toks(),
            final(self).wf(),
            old(self).pos() <= final(self).pos(),
            r is Ok ==> old(self).pos() < final(self).pos(),
            res_expr(r, final(self).pos()) == p_primary(old(self).toks(), old(self).pos()),
        decreases old(self).toks().len() - old(self).pos(), 12int,
    {
        if self.match_id(std_ids::L_PAREN) {
            let e = match self.expression() {
                Ok(e) => e,
                Err(e) => return Err(e),
            };
            return match self.consume_id(std_ids::R_PAREN) {
                Err(err) => Err(err),
                Ok(()) => Ok(e),
            };
        }
        if self.is_at_end() {
            return Err(ParseError::EndOfInput);
        }
        let id = self.peek().std_token_id;
        if id == std_ids::INT_LITERAL || id == std_ids::FLOAT_LITERAL {
            let n = match Num::parse(self.peek().value.as_str()) {
                Some(n) => n,
                None => return Err(ParseError::InvalidNumber { lexeme: self.peek().value.clone() }),
            };
            self.advance();
            return Ok(Expr::Number(n));
        }
        if id == std_ids::STRING_LITERAL {
            let s = self.peek().lexem.clone();
            self.advance();
            return Ok(Expr::StringLiteral(s));
        }
        if id == std_ids::IDENTIFIER || id == std_ids::PRINT || id == std_ids::INPUT || id == std_ids::LEN {
            let name = self.peek().value.clone();
            self.advance();
            if self.match_id(std_ids::L_PAREN) {
                return match self.finish_call() {
                    Ok(args) => Ok(Expr::Call { func_id: id, func_name: name, args }),
                    Err(e) => Err(e),
                };
            }
            let ghost t = self.toks();
            let ghost q0 = self.pos();
            assert(p_primary(t, old(self).pos()) == p_members(t, q0, ExprV::Ident(name@)));
            let mut expr = Expr::Identifier(name);
            while self.match_id(std_ids::DOT)
                invariant
                    self.wf(),
                    self.toks() == old(self).toks(),
                    t == old(self).toks(),
                    old(self).pos() < q0 <= self.pos(),
                    p_primary(t, old(self).pos()) == p_members(t, q0, ExprV::Ident(name@)),
                    p_members(t, q0, ExprV::Ident(name@)) == p_members(t, self.pos(), expr_v(&expr)),
                decreases t.len() - self.pos(),
            {
                match self.consume_id(std_ids::IDENTIFIER) {
                    Err(e) => return Err(e),
                    Ok(()) => {},
                }
                let member = self.previous().value.clone();
                let ghost ov = expr_v(&expr);
                expr = Expr::MemberAccess { object: Box::new(expr), member };
                assert(expr_v(&expr) == ExprV::Member(Box::new(ov), member@));
            }
            return Ok(expr);
        }
        Err(self.unexpected())
    }

    /// The arguments of a call, after '(' and up to the closing ')'.
    fn finish_call(&mut self) -> (r: Result<Vec<Expr>, ParseError>)
        requires
            old(self).wf(),
        ensures
            final(self).toks() == old(self).toks(),
            final(self).wf(),
            old(self).pos() <= final(self).pos(),
            res_exprs(r, final(self).pos()) == p_args(old(self).toks(), old(self).pos()),
        decreases old(self).toks().len() - old(self).pos(), 22int,
    {
        let ghost t = self.toks();
        let ghost p0 = self.pos();
        let mut args: Vec<Expr> = Vec::new();
        assert(all_exprs_v(&args) =~= seq![]);
        if self.check_id(std_ids::R_PAREN) {
            self.advance();
            return Ok(args);
        }
        loop
            invariant
                self.wf(),
                self.toks() == old(self).toks(),
                t == old(self).toks(),
                p0 == old(self).pos(),
                p0 <= self.pos(),
                p_args(t, p0) == p_args_rest(t, self.pos(), all_exprs_v(&args)),
            decreases t.len() - self.pos(),
        {
            let e = match self.expression() {
                Ok(e) => e,
                Err(e) => return Err(e),
            };
            let ghost before = args;
            args.push(e);
            proof {
                assert(args@.take(before@.len() as int) =~= before@);
                lemma_exprs_push(&before, &args);
            }
            if !self.match_id(std_ids::COMMA) {
                return match self.consume_id(std_ids::R_PAREN) {
                    Err(e) => Err(e),
                    Ok(()) => Ok(args),
                };
            }
        }
    }

    /// The binary operator of the given level at the next token: comparisons
    /// at 0, `+ -` at 1, `* /` at 2.
    fn operator_at(&self, level: u8) -> (r: Option<BinOp>)
        ensures
            r == op_at(self.toks(), self.pos(), level as int),
    {
        if self.is_at_end() {
            return None;
        }
        let id = self.peek().std_token_id;
        let op = if id == std_ids::PLUS {
            BinOp::Add
        } else if id == std_ids::MINUS {
            BinOp::Sub
        } else if id == std_ids::MULTIPLY {
            BinOp::Mul
        } else if id == std_ids::DIVIDE {
            BinOp::Div
        } else if id == std_ids::LESS {
            BinOp::Less
        } else if id == std_ids::GREATER {
            BinOp::Greater
        } else if id == std_ids::LESS_EQUAL {
            BinOp::LessEqual
        } else if id == std_ids::GREATER_EQUAL {
            BinOp::GreaterEqual
        } else if id == std_ids::EQUAL_EQUAL {
            BinOp::Equal
        } else if id == std_ids::NOT_EQUAL {
            BinOp::NotEqual
        } else {
            return None;
        };
        let fits = match op {
            BinOp::Add | BinOp::Sub => level == 1,
            BinOp::Mul | BinOp::Div => level == 2,
            _ => level == 0,
        };
        if fits {
            Some(op)
        } else {
            None
        }
    }
}

} // verus!
