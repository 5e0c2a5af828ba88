//! The parser: recursive descent over the tokens, computing the functions of
//! the grammar.

use crate::ast::expr::Expr;
use crate::ast::expr::IdGenerator;
use crate::ast::expr::Var;
use crate::ast::grammar::after;
use crate::ast::grammar::assignment;
use crate::ast::grammar::at_end;
use crate::ast::grammar::binary;
use crate::ast::grammar::binary_rest;
use crate::ast::grammar::binds;
use crate::ast::grammar::block;
use crate::ast::grammar::block_rest;
use crate::ast::grammar::body_message;
use crate::ast::grammar::call;
use crate::ast::grammar::call_rest;
use crate::ast::grammar::check;
use crate::ast::grammar::class_declaration;
use crate::ast::grammar::consume;
use crate::ast::grammar::Cursor;
use crate::ast::grammar::declaration;
use crate::ast::grammar::expr_stmt;
use crate::ast::grammar::expression;
use crate::ast::grammar::finish_call_close;
use crate::ast::grammar::finish_call_rest;
use crate::ast::grammar::for_body;
use crate::ast::grammar::for_increment;
use crate::ast::grammar::for_stmt;
use crate::ast::grammar::func_declaration;
use crate::ast::grammar::if_stmt;
use crate::ast::grammar::let_declaration;
use crate::ast::grammar::methods_rest;
use crate::ast::grammar::moved;
use crate::ast::grammar::name_message;
use crate::ast::grammar::on;
use crate::ast::grammar::params_rest;
use crate::ast::grammar::parse;
use crate::ast::grammar::parse_from;
use crate::ast::grammar::Parsed;
use crate::ast::grammar::previous;
use crate::ast::grammar::primary;
use crate::ast::grammar::print_stmt;
use crate::ast::grammar::return_stmt;
use crate::ast::grammar::stmt;
use crate::ast::grammar::synchronize;
use crate::ast::grammar::tokens_wf;
use crate::ast::grammar::unary;
use crate::ast::grammar::while_stmt;
use crate::ast::list::List;
use crate::ast::stmt::Func;
use crate::ast::stmt::Stmt;
use crate::callables::callable::FuncType;
use crate::error::Diagnostic;
use crate::error::ErrorStatus;
use crate::error::ParseError;
use crate::text::share;
use crate::token::Token;
use crate::token::TokenType;
use crate::token::Value;
use std::rc::Rc;
use vstd::prelude::*;

verus! {

/// The reports that a list of parse errors is recorded as.
pub open spec fn parse_reports(errors: Seq<ParseError>) -> Seq<Diagnostic> {
    Seq::new(errors.len(), |i: int| Diagnostic::Parse(errors[i]))
}

/// The parser's state: the tokens, the place reached in them, and the
/// source of the identifiers that the expressions get.
pub struct Parser {
    pub tokens: Vec<Rc<Token>>,
    pub curr: usize,
    pub ids: IdGenerator,
}

impl Parser {
    /// Where the parse stands.
    pub open spec fn at(&self) -> Cursor {
        Cursor { curr: self.curr as int, next_id: self.ids.next_id }
    }

    /// The tokens end with the end-of-file token, and the parser stands on
    /// one of them.
    pub open spec fn wf(&self) -> bool {
        on(self.tokens@, self.at())
    }

    /// `self` is what `before` becomes by a parse that yields `expected`
    /// and hands out `r`.
    pub open spec fn parsed<T>(&self, before: Parser, r: Result<T, ParseError>, expected: Parsed<T>) -> bool {
        &&& self.wf()
        &&& self.tokens == before.tokens
        &&& before.curr <= self.curr
        &&& expected == (Parsed { at: self.at(), result: r })
    }

    /// A parser at the start of `tokens`, which end with the end-of-file token.
    pub fn new(tokens: Vec<Rc<Token>>, ids: IdGenerator) -> (r: Self)
        requires
            tokens_wf(tokens@),
        ensures
            r.wf(),
            r.tokens == tokens,
            r.curr == 0,
            r.ids == ids,
    {
        Parser { tokens, curr: 0, ids }
    }

    /// Parses what is left of the tokens: hands out the statements, and
    /// records the errors in `status`.
    pub fn parse(&mut self, status: &mut ErrorStatus) -> (r: Vec<Stmt>)
        requires
            old(self).wf(),
        ensures
            final(self).wf(),
            final(self).tokens == old(self).tokens,
            ({
                let p = parse(old(self).tokens@, old(self).at());
                &&& r@ == p.stmts
                &&& final(self).at() == p.at
                &&& final(status).reports@ == old(status).reports@ + parse_reports(p.errors)
                &&& final(status).had_compile_error == (old(status).had_compile_error || p.errors.len()
                    > 0)
                &&& final(status).had_runtime_error == old(status).had_runtime_error
            }),
    {
        let mut statements: Vec<Stmt> = Vec::new();
        let ghost mut errors: Seq<ParseError> = Seq::empty();
        proof {
            assert(old(status).reports@ + parse_reports(errors) =~= old(status).reports@);
        }
        while !self.is_at_end()
            invariant
                self.wf(),
                self.tokens == old(self).tokens,
                parse_from(self.tokens@, self.at(), statements@, errors) == parse(
                    old(self).tokens@,
                    old(self).at(),
                ),
                status.reports@ == old(status).reports@ + parse_reports(errors),
                status.had_compile_error == (old(status).had_compile_error || errors.len() > 0),
                status.had_runtime_error == old(status).had_runtime_error,
            decreases self.tokens.len() - self.curr,
        {
            match self.declaration() {
                Ok(stmt) => statements.push(stmt),
                Err(error) => {
                    let ghost before = errors;
                    proof {
                        errors = errors.push(error);
                    }
                    status.report_compile_error(Diagnostic::Parse(error));
                    self.synchronize();
                    proof {
                        assert(parse_reports(errors) =~= parse_reports(before).push(
                            Diagnostic::Parse(error),
                        ));
                        assert(status.reports@ =~= old(status).reports@ + parse_reports(errors));
                    }
                },
            }
        }
        statements
    }

    fn declaration(&mut self) -> (r: Result<Stmt, ParseError>)
        requires
            old(self).wf(),
            !at_end(old(self).tokens@, old(self).at()),
        ensures
            final(self).parsed(*old(self), r, declaration(old(self).tokens@, old(self).at())),
            r is Ok ==> final(self).curr > old(self).curr,
        decreases old(self).tokens.len() - old(self).curr, 44int,
    {
        match self.peek().token_type {
            TokenType::Let => {
                self.advance();
                self.let_declaration()
            },
            TokenType::Fn => {
                self.advance();
                let func = self.func_declaration(FuncType::Function)?;
                Ok(Stmt::Func(Rc::new(func)))
            },
            TokenType::Class => {
                self.advance();
                self.class_declaration()
            },
            _ => self.stmt(),
        }
    }

    fn stmt(&mut self) -> (r: Result<Stmt, ParseError>)
        requires
            old(self).wf(),
        ensures
            final(self).parsed(*old(self), r, stmt(old(self).tokens@, old(self).at())),
            r is Ok ==> final(self).curr > old(self).curr,
        decreases old(self).tokens.len() - old(self).curr, 43int,
    {
        match self.peek().token_type {
            TokenType::If => {
                self.advance();
                self.if_stmt()
            },
            TokenType::Print => {
                self.advance();
                self.print_stmt()
            },
            TokenType::While => {
                self.advance();
                self.while_stmt()
            },
            TokenType::For => {
                self.advance();
                self.for_stmt()
            },
            TokenType::Return => {
                self.advance();
                self.return_stmt()
            },
            TokenType::OpenBrace => {
                self.advance();
                Ok(Stmt::new_block(self.block()?))
            },
            _ => self.expr_stmt(),
        }
    }

    fn if_stmt(&mut self) -> (r: Result<Stmt, ParseError>)
        requires
            old(self).wf(),
        ensures
            final(self).parsed(*old(self), r, if_stmt(old(self).tokens@, old(self).at())),
        decreases old(self).tokens.len() - old(self).curr, 50int,
    {
        self.consume(TokenType::OpenParen, "Expect '(' after 'if'.")?;
        let condition = self.expression()?;
        self.consume(TokenType::CloseParen, "Expect ')' after 'if' condition.")?;
        let body = self.stmt()?;
        let mut else_body: Option<Stmt> = None;
        if self.match_token(TokenType::Else) {
            else_body = Some(self.stmt()?);
        }
        Ok(Stmt::new_if(condition, body, else_body))
    }

    fn print_stmt(&mut self) -> (r: Result<Stmt, ParseError>)
        requires
            old(self).wf(),
        ensures
            final(self).parsed(*old(self), r, print_stmt(old(self).tokens@, old(self).at())),
        decreases old(self).tokens.len() - old(self).curr, 50int,
    {
        let value = self.expression()?;
        self.consume(TokenType::Semicolon, "Expect ';' after value.")?;
        Ok(Stmt::new_print(value))
    }

    fn while_stmt(&mut self) -> (r: Result<Stmt, ParseError>)
        requires
            old(self).wf(),
        ensures
            final(self).parsed(*old(self), r, while_stmt(old(self).tokens@, old(self).at())),
        decreases old(self).tokens.len() - old(self).curr, 50int,
    {
        let keyword = self.previous();
        self.consume(TokenType::OpenParen, "Expect '(' after while.")?;
        let condition = self.expression()?;
        self.consume(TokenType::CloseParen, "Expect ')' after condition")?;
        let body = self.stmt()?;
        Ok(Stmt::new_while(keyword, condition, body))
    }

    #[verifier::rlimit(60)]
    fn for_stmt(&mut self) -> (r: Result<Stmt, ParseError>)
        requires
            old(self).wf(),
        ensures
            final(self).parsed(*old(self), r, for_stmt(old(self).tokens@, old(self).at())),
        decreases old(self).tokens.len() - old(self).curr, 50int,
    {
        let ghost ts = self.tokens@;
        let keyword = self.previous();
        self.consume(TokenType::OpenParen, "Expect '(' after 'for'.")?;
        let initializer = match self.peek().token_type {
            TokenType::Semicolon => {
                self.advance();
                None
            },
            TokenType::Let => {
                self.advance();
                Some(self.let_declaration()?)
            },
            _ => Some(self.expr_stmt()?),
        };
        let condition = if self.check(TokenType::Semicolon) {
            Expr::new_literal(&mut self.ids, Value::Bool(true))
        } else {
            self.expression()?
        };
        self.consume(TokenType::Semicolon, "Expect ';' after loop condition.")?;
        let ghost c2 = self.at();
        assert(for_stmt(ts, old(self).at()) == for_increment(ts, c2, keyword, initializer, condition));
        let increment = if self.check(TokenType::CloseParen) {
            None
        } else {
            Some(self.expression()?)
        };
        self.consume(TokenType::CloseParen, "Expect ')' after for clauses.")?;
        let ghost c3 = self.at();
        assert(for_stmt(ts, old(self).at()) == for_body(ts, c3, keyword, initializer, condition, increment));
        let mut body = self.stmt()?;
        if let Some(increment) = increment {
            body = Stmt::new_block(
                List::new().push_front(Stmt::new_stmt_expr(increment)).push_front(body),
            );
        }
        body = Stmt::new_while(keyword, condition, body);
        if let Some(initializer) = initializer {
            body = Stmt::new_block(List::new().push_front(body).push_front(initializer));
        }
        Ok(body)
    }

    fn return_stmt(&mut self) -> (r: Result<Stmt, ParseError>)
        requires
            old(self).wf(),
        ensures
            final(self).parsed(*old(self), r, return_stmt(old(self).tokens@, old(self).at())),
        decreases old(self).tokens.len() - old(self).curr, 50int,
    {
        let keyword = self.previous();
        let value = if self.check(TokenType::Semicolon) {
            None
        } else {
            Some(self.expression()?)
        };
        self.consume(TokenType::Semicolon, "Expect ';' after return value.")?;
        Ok(Stmt::new_return(keyword, value))
    }

    fn block(&mut self) -> (r: Result<List<Stmt>, ParseError>)
        requires
            old(self).wf(),
        ensures
            final(self).parsed(*old(self), r, block(old(self).tokens@, old(self).at())),
            r is Ok ==> final(self).curr > old(self).curr,
        decreases old(self).tokens.len() - old(self).curr, 46int,
    {
        let mut stmts: List<Stmt> = List::new();
        while !self.check(TokenType::CloseBrace) && !self.is_at_end()
            invariant
                self.wf(),
                self.tokens == old(self).tokens,
                old(self).curr <= self.curr,
                block_rest(self.tokens@, self.at(), stmts) == block(old(self).tokens@, old(self).at()),
            decreases self.tokens.len() - self.curr,
        {
            let stmt = self.declaration()?;
            stmts = stmts.push_front(stmt);
        }
        self.consume(TokenType::CloseBrace, "Expect '}' after a block")?;
        Ok(stmts.reverse())
    }

    fn expr_stmt(&mut self) -> (r: Result<Stmt, ParseError>)
        requires
            old(self).wf(),
        ensures
            final(self).parsed(*old(self), r, expr_stmt(old(self).tokens@, old(self).at())),
            r is Ok ==> final(self).curr > old(self).curr,
        decreases old(self).tokens.len() - old(self).curr, 42int,
    {
        let expr = self.expression()?;
        self.consume(TokenType::Semicolon, "Expect ';' after expression")?;
        Ok(Stmt::new_stmt_expr(expr))
    }

    fn let_declaration(&mut self) -> (r: Result<Stmt, ParseError>)
        requires
            old(self).wf(),
        ensures
            final(self).parsed(*old(self), r, let_declaration(old(self).tokens@, old(self).at())),
        decreases old(self).tokens.len() - old(self).curr, 50int,
    {
        let token = self.consume(TokenType::Identifier, "Expect variable name.")?;
        let mut initializer: Option<Expr> = None;
        if self.match_token(TokenType::Equal) {
            initializer = Some(self.expression()?);
        }
        self.consume(TokenType::Semicolon, "Expect ';' after variable declaration.")?;
        Ok(Stmt::new_let(token, initializer))
    }

    fn func_declaration(&mut self, func_type: FuncType) -> (r: Result<Func, ParseError>)
        requires
            old(self).wf(),
        ensures
            final(self).parsed(
                *old(self),
                r,
                func_declaration(old(self).tokens@, old(self).at(), func_type),
            ),
            r is Ok ==> final(self).curr > old(self).curr,
        decreases old(self).tokens.len() - old(self).curr, 45int,
    {
        let name_message = if func_type == FuncType::Method {
            "Expect Method name."
        } else {
            "Expect Function name."
        };
        let token = self.consume(TokenType::Identifier, name_message)?;
        self.consume(TokenType::OpenParen, "Expect '(' after function name.")?;
        let params = self.params()?;
        self.consume(TokenType::CloseParen, "Expect ')' after parameters.")?;
        let body_message = if func_type == FuncType::Method {
            "Expect '{' before Method body"
        } else {
            "Expect '{' before Function body"
        };
        self.consume(TokenType::OpenBrace, body_message)?;
        let body = self.block()?;
        Ok(Func { token, params, body })
    }

    /// The parameters of a function, up to the closing parenthesis.
    fn params(&mut self) -> (r: Result<List<Rc<Token>>, ParseError>)
        requires
            old(self).wf(),
        ensures
            final(self).parsed(
                *old(self),
                r,
                params_rest(old(self).tokens@, old(self).at(), List::Nil, 0),
            ),
    {
        let mut params: List<Rc<Token>> = List::new();
        let mut count: usize = 0;
        loop
            invariant_except_break
                params_rest(self.tokens@, self.at(), params, count as int) == params_rest(
                    old(self).tokens@,
                    old(self).at(),
                    List::Nil,
                    0,
                ),
            invariant
                self.wf(),
                self.tokens == old(self).tokens,
                old(self).curr <= self.curr,
                count <= 255,
            ensures
                (Parsed { at: self.at(), result: Ok::<List<Rc<Token>>, ParseError>(params.reversed()) })
                    == params_rest(old(self).tokens@, old(self).at(), List::Nil, 0),
            decreases self.tokens.len() - self.curr,
        {
            if self.check(TokenType::CloseParen) {
                break ;
            }
            if count >= 255 {
                return Err(ParseError::new(share(self.peek()), "Can't have more than 255 parameters."));
            }
            let param = self.consume(TokenType::Identifier, "Expect parameter name.")?;
            params = params.push_front(param);
            count += 1;
            if !self.match_token(TokenType::Comma) {
                break ;
            }
        }
        Ok(params.reverse())
    }

    #[verifier::loop_isolation(false)]
    fn class_declaration(&mut self) -> (r: Result<Stmt, ParseError>)
        requires
            old(self).wf(),
        ensures
            final(self).parsed(*old(self), r, class_declaration(old(self).tokens@, old(self).at())),
        decreases old(self).tokens.len() - old(self).curr, 50int,
    {
        let token = self.consume(TokenType::Identifier, "Expect class name.")?;
        let mut superclass: Option<Var> = None;
        if self.match_token(TokenType::Less) {
            let name = self.consume(TokenType::Identifier, "Expect superclass name.")?;
            let id = self.ids.generate_id();
            superclass = Some(Var { id, token: name });
        }
        self.consume(TokenType::OpenBrace, "Expect '{' before class body.")?;
        let ghost c1 = self.at();
        let mut methods: List<Rc<Func>> = List::new();
        while !self.check(TokenType::CloseBrace) && !self.is_at_end()
            invariant
                self.wf(),
                self.tokens == old(self).tokens,
                old(self).curr <= self.curr,
                c1.curr <= self.curr,
                methods_rest(self.tokens@, self.at(), methods) == methods_rest(
                    old(self).tokens@,
                    c1,
                    List::Nil,
                ),
            decreases self.tokens.len() - self.curr,
        {
            let method = self.func_declaration(FuncType::Method)?;
            methods = methods.push_front(Rc::new(method));
        }
        self.consume(TokenType::CloseBrace, "Expect '}' after class body.")?;
        Ok(Stmt::new_class(token, methods.reverse(), superclass))
    }

    fn expression(&mut self) -> (r: Result<Expr, ParseError>)
        requires
            old(self).wf(),
        ensures
            final(self).parsed(*old(self), r, expression(old(self).tokens@, old(self).at())),
        decreases old(self).tokens.len() - old(self).curr, 41int,
    {
        self.assignment()
    }

    fn assignment(&mut self) -> (r: Result<Expr, ParseError>)
        requires
            old(self).wf(),
        ensures
            final(self).parsed(*old(self), r, assignment(old(self).tokens@, old(self).at())),
        decreases old(self).tokens.len() - old(self).curr, 40int,
    {
        let expr = self.or()?;
        if !self.match_token(TokenType::Equal) {
            return Ok(expr);
        }
        match expr {
            Expr::Var(var) => {
                let value = self.assignment()?;
                Ok(Expr::new_assign(&mut self.ids, var.token, value))
            },
            Expr::Get(get) => {
                let value = self.assignment()?;
                Ok(Expr::new_set(&mut self.ids, *get.object, get.token, value))
            },
            _ => {
                let equals = self.previous();
                Err(ParseError::new(equals, "Invalid assignment target."))
            },
        }
    }

    fn or(&mut self) -> (r: Result<Expr, ParseError>)
        requires
            old(self).wf(),
        ensures
            final(self).parsed(*old(self), r, binary(old(self).tokens@, old(self).at(), 5)),
        decreases old(self).tokens.len() - old(self).curr, 38int,
    {
        self.binary(5)
    }

    fn and(&mut self) -> (r: Result<Expr, ParseError>)
        requires
            old(self).wf(),
        ensures
            final(self).parsed(*old(self), r, binary(old(self).tokens@, old(self).at(), 4)),
        decreases old(self).tokens.len() - old(self).curr, 35int,
    {
        self.binary(4)
    }

    fn equality(&mut self) -> (r: Result<Expr, ParseError>)
        requires
            old(self).wf(),
        ensures
            final(self).parsed(*old(self), r, binary(old(self).tokens@, old(self).at(), 3)),
        decreases old(self).tokens.len() - old(self).curr, 32int,
    {
        self.binary(3)
    }

    fn comparison(&mut self) -> (r: Result<Expr, ParseError>)
        requires
            old(self).wf(),
        ensures
            final(self).parsed(*old(self), r, binary(old(self).tokens@, old(self).at(), 2)),
        decreases old(self).tokens.len() - old(self).curr, 29int,
    {
        self.binary(2)
    }

    fn term(&mut self) -> (r: Result<Expr, ParseError>)
        requires
            old(self).wf(),
        ensures
            final(self).parsed(*old(self), r, binary(old(self).tokens@, old(self).at(), 1)),
        decreases old(self).tokens.len() - old(self).curr, 26int,
    {
        self.binary(1)
    }

    fn factor(&mut self) -> (r: Result<Expr, ParseError>)
        requires
            old(self).wf(),
        ensures
            final(self).parsed(*old(self), r, binary(old(self).tokens@, old(self).at(), 0)),
        decreases old(self).tokens.len() - old(self).curr, 23int,
    {
        self.binary(0)
    }

    /// The operand of an operator of `level`.
    fn operand(&mut self, level: u8) -> (r: Result<Expr, ParseError>)
        requires
            old(self).wf(),
            level <= 5,
        ensures
            final(self).parsed(
                *old(self),
                r,
                if level == 0 {
                    unary(old(self).tokens@, old(self).at())
                } else {
                    binary(old(self).tokens@, old(self).at(), level - 1)
                },
            ),
        decreases old(self).tokens.len() - old(self).curr, 21 + 3 * level,
    {
        if level == 5 {
            self.and()
        } else if level == 4 {
            self.equality()
        } else if level == 3 {
            self.comparison()
        } else if level == 2 {
            self.term()
        } else if level == 1 {
            self.factor()
        } else {
            self.unary()
        }
    }

    /// Whether an operator of `level` comes next; if so, it is passed.
    fn match_level(&mut self, level: u8) -> (r: bool)
        requires
            old(self).wf(),
            level <= 5,
        ensures
            final(self).wf(),
            r == (!at_end(old(self).tokens@, old(self).at()) && binds(
                old(self).tokens@[old(self).curr as int].token_type,
                level as int,
            )),
            final(self).tokens == old(self).tokens,
            final(self).ids == old(self).ids,
            final(self).curr == if r {
                old(self).curr + 1
            } else {
                old(self).curr as int
            },
    {
        if level == 5 {
            self.match_token(TokenType::Or)
        } else if level == 4 {
            self.match_token(TokenType::And)
        } else if level == 3 {
            self.match_tokens(&[TokenType::BangEqual, TokenType::EqualEqual])
        } else if level == 2 {
            self.match_tokens(
                &[TokenType::Greater, TokenType::GreaterEqual, TokenType::Less, TokenType::LessEqual],
            )
        } else if level == 1 {
            self.match_tokens(&[TokenType::Minus, TokenType::Plus])
        } else {
            self.match_tokens(&[TokenType::Star, TokenType::Slash])
        }
    }

    /// Operands joined by the operators of `level`, to the left first.
    fn binary(&mut self, level: u8) -> (r: Result<Expr, ParseError>)
        requires
            old(self).wf(),
            level <= 5,
        ensures
            final(self).parsed(*old(self), r, binary(old(self).tokens@, old(self).at(), level as int)),
        decreases old(self).tokens.len() - old(self).curr, 22 + 3 * level,
    {
        let mut expr = self.operand(level)?;
        while self.match_level(level)
            invariant
                self.wf(),
                level <= 5,
                self.tokens == old(self).tokens,
                old(self).curr <= self.curr,
                binary_rest(self.tokens@, self.at(), level as int, expr) == binary(
                    old(self).tokens@,
                    old(self).at(),
                    level as int,
                ),
            decreases self.tokens.len() - self.curr,
        {
            let operator = self.previous();
            let right = self.operand(level)?;
            expr = if level >= 4 {
                Expr::new_logical(&mut self.ids, expr, operator, right)
            } else {
                Expr::new_binary(&mut self.ids, expr, operator, right)
            };
        }
        Ok(expr)
    }

    fn unary(&mut self) -> (r: Result<Expr, ParseError>)
        requires
            old(self).wf(),
        ensures
            final(self).parsed(*old(self), r, unary(old(self).tokens@, old(self).at())),
        decreases old(self).tokens.len() - old(self).curr, 19int,
    {
        if self.match_tokens(&[TokenType::Bang, TokenType::Minus]) {
            let operator = self.previous();
            let right = self.unary()?;
            return Ok(Expr::new_unary(&mut self.ids, operator, right));
        }
        self.call()
    }

    fn call(&mut self) -> (r: Result<Expr, ParseError>)
        requires
            old(self).wf(),
        ensures
            final(self).parsed(*old(self), r, call(old(self).tokens@, old(self).at())),
        decreases old(self).tokens.len() - old(self).curr, 18int,
    {
        let mut expr = self.primary()?;
        loop
            invariant_except_break
                call_rest(self.tokens@, self.at(), expr) == call(old(self).tokens@, old(self).at()),
            invariant
                self.wf(),
                self.tokens == old(self).tokens,
                old(self).curr <= self.curr,
            ensures
                (Parsed { at: self.at(), result: Ok::<Expr, ParseError>(expr) }) == call(
                    old(self).tokens@,
                    old(self).at(),
                ),
            decreases self.tokens.len() - self.curr,
        {
            if self.match_token(TokenType::OpenParen) {
                expr = self.finish_call(expr)?;
            } else if self.match_token(TokenType::Dot) {
                let token = self.consume(TokenType::Identifier, "Expect property name after '.'")?;
                expr = Expr::new_get(&mut self.ids, expr, token);
            } else {
                break ;
            }
        }
        Ok(expr)
    }

    fn primary(&mut self) -> (r: Result<Expr, ParseError>)
        requires
            old(self).wf(),
        ensures
            final(self).parsed(*old(self), r, primary(old(self).tokens@, old(self).at())),
        decreases old(self).tokens.len() - old(self).curr, 16int,
    {
        if self.is_at_end() {
            return Err(ParseError::new(share(self.peek()), "Expected expression."));
        }
        let token = self.advance();
        let expr = match token.token_type {
            TokenType::False => Expr::new_literal(&mut self.ids, Value::Bool(false)),
            TokenType::True => Expr::new_literal(&mut self.ids, Value::Bool(true)),
            TokenType::Nil => Expr::new_literal(&mut self.ids, Value::Nil),
            TokenType::Number | TokenType::String => Expr::new_literal(
                &mut self.ids,
                token.literal.copy(),
            ),
            TokenType::Identifier => Expr::new_var(&mut self.ids, token),
            TokenType::OpenParen => {
                let inner = self.grouping()?;
                Expr::new_grouping(&mut self.ids, inner)
            },
            TokenType::This => Expr::new_this(&mut self.ids, token),
            TokenType::Super => {
                self.consume(TokenType::Dot, "Expect '.' after 'super'.")?;
                let method = self.consume(TokenType::Identifier, "Expect superclass method name.")?;
                Expr::new_super(&mut self.ids, token, method)
            },
            _ => {
                return Err(ParseError::new(token, "Expected expression."));
            },
        };
        Ok(expr)
    }

    fn finish_call(&mut self, callee: Expr) -> (r: Result<Expr, ParseError>)
        requires
            old(self).wf(),
        ensures
            final(self).parsed(
                *old(self),
                r,
                finish_call_rest(old(self).tokens@, old(self).at(), callee, List::Nil, 0),
            ),
        decreases old(self).tokens.len() - old(self).curr, 48int,
    {
        let mut args: List<Expr> = List::new();
        let mut count: usize = 0;
        loop
            invariant_except_break
                finish_call_rest(self.tokens@, self.at(), callee, args, count as int)
                    == finish_call_rest(old(self).tokens@, old(self).at(), callee, List::Nil, 0),
            invariant
                self.wf(),
                self.tokens == old(self).tokens,
                old(self).curr <= self.curr,
                count <= 255,
            ensures
                finish_call_close(self.tokens@, self.at(), callee, args) == finish_call_rest(
                    old(self).tokens@,
                    old(self).at(),
                    callee,
                    List::Nil,
                    0,
                ),
            decreases self.tokens.len() - self.curr,
        {
            if self.check(TokenType::CloseParen) {
                break ;
            }
            let arg = self.expression()?;
            args = args.push_front(arg);
            if count + 1 > 255 {
                return Err(ParseError::new(share(self.peek()), "Can't have more than 255 arguments."));
            }
            count += 1;
            if !self.match_token(TokenType::Comma) {
                break ;
            }
        }
        let paren = self.consume(TokenType::CloseParen, "Expected ')' after arguments.")?;
        Ok(Expr::new_call(&mut self.ids, callee, paren, args.reverse()))
    }

    fn grouping(&mut self) -> (r: Result<Expr, ParseError>)
        requires
            old(self).wf(),
        ensures
            final(self).wf(),
            final(self).tokens == old(self).tokens,
            old(self).curr <= final(self).curr,
            ({
                let inner = expression(old(self).tokens@, old(self).at());
                let c = after(old(self).tokens@, old(self).at(), inner);
                (Parsed { at: final(self).at(), result: r }) == if inner.result is Err {
                    inner
                } else {
                    match consume(
                        old(self).tokens@,
                        c,
                        TokenType::CloseParen,
                        "Expect ')' after expression.",
                    ).result {
                        Ok(_) => Parsed { at: moved(c), result: inner.result },
                        Err(e) => Parsed { at: c, result: Err(e) },
                    }
                }
            }),
        decreases old(self).tokens.len() - old(self).curr, 49int,
    {
        let expr = self.expression()?;
        self.consume(TokenType::CloseParen, "Expect ')' after expression.")?;
        Ok(expr)
    }

    fn consume(&mut self, token_type: TokenType, message: &'static str) -> (r: Result<Rc<Token>, ParseError>)
        requires
            old(self).wf(),
        ensures
            final(self).parsed(
                *old(self),
                r,
                consume(old(self).tokens@, old(self).at(), token_type, message),
            ),
    {
        if self.check(token_type) {
            Ok(self.advance())
        } else {
            Err(ParseError::new(share(self.peek()), message))
        }
    }

    fn match_tokens(&mut self, types: &[TokenType]) -> (r: bool)
        requires
            old(self).wf(),
        ensures
            final(self).wf(),
            r == exists|i: int| 0 <= i < types@.len() && check(old(self).tokens@, old(self).at(), types@[i]),
            final(self).tokens == old(self).tokens,
            final(self).ids == old(self).ids,
            final(self).curr == if r {
                old(self).curr + 1
            } else {
                old(self).curr as int
            },
    {
        let mut i: usize = 0;
        while i < types.len()
            invariant
                i <= types.len(),
                *self == *old(self),
                self.wf(),
                forall|j: int| 0 <= j < i ==> !check(self.tokens@, self.at(), types@[j]),
            decreases types.len() - i,
        {
            if self.match_token(types[i]) {
                return true;
            }
            i += 1;
        }
        false
    }

    fn match_token(&mut self, token_type: TokenType) -> (r: bool)
        requires
            old(self).wf(),
        ensures
            final(self).wf(),
            r == check(old(self).tokens@, old(self).at(), token_type),
            final(self).tokens == old(self).tokens,
            final(self).ids == old(self).ids,
            final(self).curr == if r {
                old(self).curr + 1
            } else {
                old(self).curr as int
            },
    {
        if self.check(token_type) {
            self.advance();
            return true;
        }
        false
    }

    fn check(&self, token_type: TokenType) -> (r: bool)
        requires
            self.wf(),
        ensures
            r == check(self.tokens@, self.at(), token_type),
    {
        if self.is_at_end() {
            return false;
        }
        self.peek().token_type == token_type
    }

    fn is_at_end(&self) -> (r: bool)
        requires
            self.wf(),
        ensures
            r == at_end(self.tokens@, self.at()),
    {
        self.peek().token_type == TokenType::Eof
    }

    /// Passes the next token, unless it is the end-of-file token, and hands
    /// out the token before the place reached.
    fn advance(&mut self) -> (r: Rc<Token>)
        requires
            old(self).wf(),
        ensures
            final(self).wf(),
            final(self).tokens == old(self).tokens,
            final(self).ids == old(self).ids,
            final(self).curr == if at_end(old(self).tokens@, old(self).at()) {
                old(self).curr as int
            } else {
                old(self).curr + 1
            },
            r == previous(final(self).tokens@, final(self).at()),
    {
        if !self.is_at_end() {
            let len = self.tokens.len();
            assert(self.curr + 1 < len);
            self.curr += 1;
        }
        self.previous()
    }

    fn peek(&self) -> (r: &Rc<Token>)
        requires
            self.wf(),
        ensures
            *r == self.tokens@[self.curr as int],
    {
        &self.tokens[self.curr]
    }

    fn previous(&self) -> (r: Rc<Token>)
        requires
            self.wf(),
        ensures
            r == previous(self.tokens@, self.at()),
    {
        if self.curr > 0 {
            share(&self.tokens[self.curr - 1])
        } else {
            share(&self.tokens[0])
        }
    }

    /// Moves on to where the next statement starts.
    fn synchronize(&mut self)
        requires
            old(self).wf(),
        ensures
            final(self).wf(),
            *final(self) == (Parser { curr: final(self).curr, ..*old(self) }),
            final(self).at() == synchronize(old(self).tokens@, old(self).at()),
            old(self).curr <= final(self).curr,
            !at_end(old(self).tokens@, old(self).at()) ==> old(self).curr < final(self).curr,
    {
        while !self.is_at_end()
            invariant
                self.wf(),
                *self == (Parser { curr: self.curr, ..*old(self) }),
                old(self).curr <= self.curr,
                synchronize(self.tokens@, self.at()) == synchronize(old(self).tokens@, old(self).at()),
                at_end(self.tokens@, self.at()) && !at_end(old(self).tokens@, old(self).at())
                    ==> old(self).curr < self.curr,
            decreases self.tokens.len() - self.curr,
        {
            self.advance();
            if self.previous().token_type == TokenType::Semicolon {
                return ;
            }
            match self.peek().token_type {
                TokenType::Class
                | TokenType::Fn
                | TokenType::Let
                | TokenType::For
                | TokenType::If
                | TokenType::While
                | TokenType::Print
                | TokenType::Return => {
                    return ;
                },
                _ => {},
            }
        }
    }
}

} // verus!
