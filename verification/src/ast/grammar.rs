//! The grammar of the language, as a function from tokens to syntax trees.
//!
//! ```text
//! program    = declaration* EOF
//! declaration= classDecl | funcDecl | letDecl | statement
//! classDecl  = "class" IDENT ( "<" IDENT )? "{" function* "}"
//! funcDecl   = "fn" function
//! function   = IDENT "(" params? ")" block
//! letDecl    = "let" IDENT ( "=" expr )? ";"
//! statement  = ifStmt | whileStmt | forStmt | printStmt
//!            | returnStmt | block | exprStmt
//! block      = "{" declaration* "}"
//! expr       = assignment
//! assignment = ( call "." )? IDENT "=" assignment | logic_or
//! logic_or .. factor: left-associative binary levels
//! unary      = ("!"|"-") unary | call
//! call       = primary ( "(" args? ")" | "." IDENT )*
//! primary    = "true" | "false" | "nil" | NUMBER | STRING | IDENT
//!            | "(" expr ")" | "this" | "super" "." IDENT
//! ```
//!
//! Every function here takes the tokens and a `Cursor`, the place reached
//! and the next free identifier, and says what is parsed from there: the
//! tree or the error, and the cursor behind it. The parser computes exactly
//! these functions.

use crate::ast::expr::Assign;
use crate::ast::expr::Binary;
use crate::ast::expr::Call;
use crate::ast::expr::Expr;
use crate::ast::expr::following;
use crate::ast::expr::Get;
use crate::ast::expr::Grouping;
use crate::ast::expr::Literal;
use crate::ast::expr::Logical;
use crate::ast::expr::SetField;
use crate::ast::expr::Super;
use crate::ast::expr::This;
use crate::ast::expr::Unary;
use crate::ast::expr::Var;
use crate::ast::list::List;
use crate::ast::stmt::Block;
use crate::ast::stmt::Class;
use crate::ast::stmt::Func;
use crate::ast::stmt::If;
use crate::ast::stmt::Let;
use crate::ast::stmt::Print;
use crate::ast::stmt::Return;
use crate::ast::stmt::Stmt;
use crate::ast::stmt::StmtExpr;
use crate::ast::stmt::While;
use crate::callables::callable::FuncType;
use crate::error::ParseError;
use crate::token::Token;
use crate::token::TokenType;
use crate::token::Value;
use std::rc::Rc;
use vstd::prelude::*;

verus! {

/// Where a parse stands: the index of the next token, and the identifier
/// that the next expression gets.
pub struct Cursor {
    pub curr: int,
    pub next_id: u64,
}

/// What a parse yields: the tree or the error, and where the parse stands
/// behind it.
pub struct Parsed<T> {
    pub at: Cursor,
    pub result: Result<T, ParseError>,
}

/// A token list ends with the end-of-file token.
pub open spec fn tokens_wf(ts: Seq<Rc<Token>>) -> bool {
    ts.len() > 0 && ts.last().token_type == TokenType::Eof
}

/// The cursor stands on a token of a well-formed list.
pub open spec fn on(ts: Seq<Rc<Token>>, c: Cursor) -> bool {
    tokens_wf(ts) && 0 <= c.curr < ts.len()
}

pub open spec fn at_end(ts: Seq<Rc<Token>>, c: Cursor) -> bool {
    ts[c.curr].token_type == TokenType::Eof
}

/// Whether the next token is of the given type. At the end none is.
pub open spec fn check(ts: Seq<Rc<Token>>, c: Cursor, token_type: TokenType) -> bool {
    !at_end(ts, c) && ts[c.curr].token_type == token_type
}

/// The cursor one token on.
pub open spec fn moved(c: Cursor) -> Cursor {
    Cursor { curr: c.curr + 1, next_id: c.next_id }
}

/// The cursor with one identifier used.
pub open spec fn numbered(c: Cursor) -> Cursor {
    Cursor { curr: c.curr, next_id: following(c.next_id) }
}

/// The token before the cursor; at the very start, the first token.
pub open spec fn previous(ts: Seq<Rc<Token>>, c: Cursor) -> Rc<Token> {
    if c.curr > 0 {
        ts[c.curr - 1]
    } else {
        ts[0]
    }
}

pub open spec fn ok<T>(at: Cursor, value: T) -> Parsed<T> {
    Parsed { at, result: Ok(value) }
}

pub open spec fn fail<T>(at: Cursor, token: Rc<Token>, message: &'static str) -> Parsed<T> {
    Parsed { at, result: Err(ParseError { token, message }) }
}

/// The error of one parse as the error of another.
pub open spec fn rethrow<T, U>(p: Parsed<T>) -> Parsed<U> {
    Parsed {
        at: p.at,
        result: match p.result {
            Err(e) => Err(e),
            Ok(_) => arbitrary(),
        },
    }
}

/// The tree of a parse that yielded one.
pub open spec fn got<T>(p: Parsed<T>) -> T {
    match p.result {
        Ok(v) => v,
        Err(_) => arbitrary(),
    }
}

/// Where a parse that began at `c` stands. No parse goes back or leaves the
/// list; this function says so in a form that needs no proof.
pub open spec fn after<T>(ts: Seq<Rc<Token>>, c: Cursor, p: Parsed<T>) -> Cursor {
    if c.curr <= p.at.curr < ts.len() {
        p.at
    } else {
        Cursor { curr: c.curr, next_id: p.at.next_id }
    }
}

/// The next token, if it is of the given type; else an error at it.
pub open spec fn consume(ts: Seq<Rc<Token>>, c: Cursor, token_type: TokenType, message: &'static str) -> Parsed<
    Rc<Token>,
> {
    if check(ts, c, token_type) {
        ok(moved(c), ts[c.curr])
    } else {
        fail(c, ts[c.curr], message)
    }
}

/// Whether a token of this type starts a statement.
pub open spec fn starts_statement(token_type: TokenType) -> bool {
    token_type == TokenType::Class || token_type == TokenType::Fn || token_type == TokenType::Let
        || token_type == TokenType::For || token_type == TokenType::If || token_type
        == TokenType::While || token_type == TokenType::Print || token_type == TokenType::Return
}

/// Where parsing resumes after an error at `c`: behind the next semicolon,
/// or at the next token that starts a statement, or at the end.
pub open spec fn synchronize(ts: Seq<Rc<Token>>, c: Cursor) -> Cursor
    decreases ts.len() - c.curr,
    when on(ts, c)
{
    if at_end(ts, c) {
        c
    } else if ts[c.curr].token_type == TokenType::Semicolon {
        moved(c)
    } else if starts_statement(ts[c.curr + 1].token_type) {
        moved(c)
    } else {
        synchronize(ts, moved(c))
    }
}

/// Whether an operator of this type binds two operands at the given level:
/// 5 `or`, 4 `and`, 3 equality, 2 comparison, 1 term, 0 factor.
pub open spec fn binds(token_type: TokenType, level: int) -> bool {
    if level == 5 {
        token_type == TokenType::Or
    } else if level == 4 {
        token_type == TokenType::And
    } else if level == 3 {
        token_type == TokenType::BangEqual || token_type == TokenType::EqualEqual
    } else if level == 2 {
        token_type == TokenType::Greater || token_type == TokenType::GreaterEqual || token_type
            == TokenType::Less || token_type == TokenType::LessEqual
    } else if level == 1 {
        token_type == TokenType::Minus || token_type == TokenType::Plus
    } else {
        token_type == TokenType::Star || token_type == TokenType::Slash
    }
}

/// The node of two operands and their operator at the given level.
pub open spec fn joined(level: int, id: u64, left: Expr, operator: Rc<Token>, right: Expr) -> Expr {
    if level >= 4 {
        Expr::Logical(Logical { id, left: Box::new(left), operator, right: Box::new(right) })
    } else {
        Expr::Binary(Binary { id, left: Box::new(left), operator, right: Box::new(right) })
    }
}

/// The text of the error for a missing name.
pub open spec fn name_message(kind: FuncType) -> &'static str {
    if kind == FuncType::Method {
        "Expect Method name."
    } else {
        "Expect Function name."
    }
}

/// The text of the error for a missing body.
pub open spec fn body_message(kind: FuncType) -> &'static str {
    if kind == FuncType::Method {
        "Expect '{' before Method body"
    } else {
        "Expect '{' before Function body"
    }
}

/// The parameters from `c` on, behind those in `found`, which is in reverse
/// order and holds `count` of them.
pub open spec fn params_rest(ts: Seq<Rc<Token>>, c: Cursor, found: List<Rc<Token>>, count: int) -> Parsed<
    List<Rc<Token>>,
>
    decreases ts.len() - c.curr,
    when on(ts, c)
{
    if check(ts, c, TokenType::CloseParen) {
        ok(c, found.reversed())
    } else if count >= 255 {
        fail(c, ts[c.curr], "Can't have more than 255 parameters.")
    } else if !check(ts, c, TokenType::Identifier) {
        fail(c, ts[c.curr], "Expect parameter name.")
    } else if check(ts, moved(c), TokenType::Comma) {
        params_rest(ts, moved(moved(c)), List::Cons(Box::new(ts[c.curr]), Box::new(found)), count + 1)
    } else {
        ok(moved(c), List::Cons(Box::new(ts[c.curr]), Box::new(found)).reversed())
    }
}

pub open spec fn declaration(ts: Seq<Rc<Token>>, c: Cursor) -> Parsed<Stmt>
    decreases ts.len() - c.curr, 30int,
    when on(ts, c)
{
    let token_type = ts[c.curr].token_type;
    if token_type == TokenType::Let {
        let_declaration(ts, moved(c))
    } else if token_type == TokenType::Fn {
        let f = func_declaration(ts, moved(c), FuncType::Function);
        if f.result is Err {
            rethrow(f)
        } else {
            ok(f.at, Stmt::Func(Rc::new(got(f))))
        }
    } else if token_type == TokenType::Class {
        class_declaration(ts, moved(c))
    } else {
        stmt(ts, c)
    }
}

pub open spec fn stmt(ts: Seq<Rc<Token>>, c: Cursor) -> Parsed<Stmt>
    decreases ts.len() - c.curr, 29int,
    when on(ts, c)
{
    let token_type = ts[c.curr].token_type;
    if token_type == TokenType::If {
        if_stmt(ts, moved(c))
    } else if token_type == TokenType::Print {
        print_stmt(ts, moved(c))
    } else if token_type == TokenType::While {
        while_stmt(ts, moved(c))
    } else if token_type == TokenType::For {
        for_stmt(ts, moved(c))
    } else if token_type == TokenType::Return {
        return_stmt(ts, moved(c))
    } else if token_type == TokenType::OpenBrace {
        let b = block(ts, moved(c));
        if b.result is Err {
            rethrow(b)
        } else {
            ok(b.at, Stmt::Block(Block { stmts: got(b) }))
        }
    } else {
        expr_stmt(ts, c)
    }
}

/// What follows `if`.
pub open spec fn if_stmt(ts: Seq<Rc<Token>>, c: Cursor) -> Parsed<Stmt>
    decreases ts.len() - c.curr, 50int,
    when on(ts, c)
{
    if !check(ts, c, TokenType::OpenParen) {
        fail(c, ts[c.curr], "Expect '(' after 'if'.")
    } else {
        let cond = expression(ts, moved(c));
        let c1 = after(ts, moved(c), cond);
        if cond.result is Err {
            rethrow(cond)
        } else if !check(ts, c1, TokenType::CloseParen) {
            fail(c1, ts[c1.curr], "Expect ')' after 'if' condition.")
        } else {
            let body = stmt(ts, moved(c1));
            let c2 = after(ts, moved(c1), body);
            if body.result is Err {
                rethrow(body)
            } else if check(ts, c2, TokenType::Else) {
                let other = stmt(ts, moved(c2));
                if other.result is Err {
                    rethrow(other)
                } else {
                    ok(
                        other.at,
                        Stmt::If(
                            If {
                                condition: got(cond),
                                body: Box::new(got(body)),
                                else_body: Some(Box::new(got(other))),
                            },
                        ),
                    )
                }
            } else {
                ok(
                    c2,
                    Stmt::If(If { condition: got(cond), body: Box::new(got(body)), else_body: None }),
                )
            }
        }
    }
}

/// What follows `print`.
pub open spec fn print_stmt(ts: Seq<Rc<Token>>, c: Cursor) -> Parsed<Stmt>
    decreases ts.len() - c.curr, 50int,
    when on(ts, c)
{
    let value = expression(ts, c);
    let c1 = after(ts, c, value);
    if value.result is Err {
        rethrow(value)
    } else if !check(ts, c1, TokenType::Semicolon) {
        fail(c1, ts[c1.curr], "Expect ';' after value.")
    } else {
        ok(moved(c1), Stmt::Print(Print { expr: got(value) }))
    }
}

/// What follows `while`.
pub open spec fn while_stmt(ts: Seq<Rc<Token>>, c: Cursor) -> Parsed<Stmt>
    decreases ts.len() - c.curr, 50int,
    when on(ts, c)
{
    if !check(ts, c, TokenType::OpenParen) {
        fail(c, ts[c.curr], "Expect '(' after while.")
    } else {
        let cond = expression(ts, moved(c));
        let c1 = after(ts, moved(c), cond);
        if cond.result is Err {
            rethrow(cond)
        } else if !check(ts, c1, TokenType::CloseParen) {
            fail(c1, ts[c1.curr], "Expect ')' after condition")
        } else {
            let body = stmt(ts, moved(c1));
            if body.result is Err {
                rethrow(body)
            } else {
                ok(
                    body.at,
                    Stmt::While(
                        While { keyword: previous(ts, c), condition: got(cond), body: Box::new(got(body)) },
                    ),
                )
            }
        }
    }
}

/// What follows `for`: the initializer, and behind it the rest of the loop.
pub open spec fn for_stmt(ts: Seq<Rc<Token>>, c: Cursor) -> Parsed<Stmt>
    decreases ts.len() - c.curr, 50int,
    when on(ts, c)
{
    if !check(ts, c, TokenType::OpenParen) {
        fail(c, ts[c.curr], "Expect '(' after 'for'.")
    } else {
        let c1 = moved(c);
        let token_type = ts[c1.curr].token_type;
        if token_type == TokenType::Semicolon {
            for_condition(ts, moved(c1), previous(ts, c), None)
        } else {
            let init = if token_type == TokenType::Let {
                let_declaration(ts, moved(c1))
            } else {
                expr_stmt(ts, c1)
            };
            if init.result is Err {
                init
            } else {
                for_condition(ts, after(ts, c1, init), previous(ts, c), Some(got(init)))
            }
        }
    }
}

/// The condition of a `for` loop, and behind it the rest of the loop. Where
/// there is none, the condition is the literal `true`.
pub open spec fn for_condition(ts: Seq<Rc<Token>>, c: Cursor, keyword: Rc<Token>, init: Option<Stmt>) -> Parsed<
    Stmt,
>
    decreases ts.len() - c.curr, 49int,
    when on(ts, c)
{
    if check(ts, c, TokenType::Semicolon) {
        for_increment(
            ts,
            moved(numbered(c)),
            keyword,
            init,
            Expr::Literal(Literal { id: c.next_id, value: Value::Bool(true) }),
        )
    } else {
        let cond = expression(ts, c);
        let c1 = after(ts, c, cond);
        if cond.result is Err {
            rethrow(cond)
        } else if !check(ts, c1, TokenType::Semicolon) {
            fail(c1, ts[c1.curr], "Expect ';' after loop condition.")
        } else {
            for_increment(ts, moved(c1), keyword, init, got(cond))
        }
    }
}

/// The increment of a `for` loop, and behind it the body.
pub open spec fn for_increment(
    ts: Seq<Rc<Token>>,
    c: Cursor,
    keyword: Rc<Token>,
    init: Option<Stmt>,
    cond: Expr,
) -> Parsed<Stmt>
    decreases ts.len() - c.curr, 48int,
    when on(ts, c)
{
    if check(ts, c, TokenType::CloseParen) {
        for_body(ts, moved(c), keyword, init, cond, None)
    } else {
        let inc = expression(ts, c);
        let c1 = after(ts, c, inc);
        if inc.result is Err {
            rethrow(inc)
        } else if !check(ts, c1, TokenType::CloseParen) {
            fail(c1, ts[c1.curr], "Expect ')' after for clauses.")
        } else {
            for_body(ts, moved(c1), keyword, init, cond, Some(got(inc)))
        }
    }
}

/// The loop that a `for` statement stands for: the body with the increment
/// behind it, under `while`, behind the initializer.
pub open spec fn for_loop(keyword: Rc<Token>, init: Option<Stmt>, cond: Expr, inc: Option<Expr>, body: Stmt) -> Stmt {
    let stepped = match inc {
        Some(e) => Stmt::Block(Block { stmts: List::pair(body, Stmt::StmtExpr(StmtExpr { expr: e })) }),
        None => body,
    };
    let repeated = Stmt::While(While { keyword, condition: cond, body: Box::new(stepped) });
    match init {
        Some(s) => Stmt::Block(Block { stmts: List::pair(s, repeated) }),
        None => repeated,
    }
}

/// The body of a `for` loop.
pub open spec fn for_body(
    ts: Seq<Rc<Token>>,
    c: Cursor,
    keyword: Rc<Token>,
    init: Option<Stmt>,
    cond: Expr,
    inc: Option<Expr>,
) -> Parsed<Stmt>
    decreases ts.len() - c.curr, 47int,
    when on(ts, c)
{
    let body = stmt(ts, c);
    if body.result is Err {
        body
    } else {
        ok(body.at, for_loop(keyword, init, cond, inc, got(body)))
    }
}

/// What follows `return`.
pub open spec fn return_stmt(ts: Seq<Rc<Token>>, c: Cursor) -> Parsed<Stmt>
    decreases ts.len() - c.curr, 50int,
    when on(ts, c)
{
    let keyword = previous(ts, c);
    if check(ts, c, TokenType::Semicolon) {
        ok(moved(c), Stmt::Return(Return { keyword, value: None }))
    } else {
        let value = expression(ts, c);
        let c1 = after(ts, c, value);
        if value.result is Err {
            rethrow(value)
        } else if !check(ts, c1, TokenType::Semicolon) {
            fail(c1, ts[c1.curr], "Expect ';' after return value.")
        } else {
            ok(moved(c1), Stmt::Return(Return { keyword, value: Some(got(value)) }))
        }
    }
}

/// What follows `{`: declarations up to the closing brace.
pub open spec fn block(ts: Seq<Rc<Token>>, c: Cursor) -> Parsed<List<Stmt>>
    decreases ts.len() - c.curr, 41int,
    when on(ts, c)
{
    block_rest(ts, c, List::Nil)
}

/// The declarations from `c` up to the closing brace, behind those in
/// `found`, which is in reverse order.
pub open spec fn block_rest(ts: Seq<Rc<Token>>, c: Cursor, found: List<Stmt>) -> Parsed<List<Stmt>>
    decreases ts.len() - c.curr, 40int,
    when on(ts, c)
{
    if !check(ts, c, TokenType::CloseBrace) && !at_end(ts, c) {
        let d = declaration(ts, c);
        if d.result is Err {
            rethrow(d)
        } else if c.curr < d.at.curr < ts.len() {
            block_rest(ts, d.at, List::Cons(Box::new(got(d)), Box::new(found)))
        } else {
            rethrow(d)
        }
    } else if !check(ts, c, TokenType::CloseBrace) {
        fail(c, ts[c.curr], "Expect '}' after a block")
    } else {
        ok(moved(c), found.reversed())
    }
}

pub open spec fn expr_stmt(ts: Seq<Rc<Token>>, c: Cursor) -> Parsed<Stmt>
    decreases ts.len() - c.curr, 28int,
    when on(ts, c)
{
    let e = expression(ts, c);
    let c1 = after(ts, c, e);
    if e.result is Err {
        rethrow(e)
    } else if !check(ts, c1, TokenType::Semicolon) {
        fail(c1, ts[c1.curr], "Expect ';' after expression")
    } else {
        ok(moved(c1), Stmt::StmtExpr(StmtExpr { expr: got(e) }))
    }
}

/// What follows `let`.
pub open spec fn let_declaration(ts: Seq<Rc<Token>>, c: Cursor) -> Parsed<Stmt>
    decreases ts.len() - c.curr, 50int,
    when on(ts, c)
{
    if !check(ts, c, TokenType::Identifier) {
        fail(c, ts[c.curr], "Expect variable name.")
    } else {
        let token = ts[c.curr];
        let c1 = moved(c);
        if check(ts, c1, TokenType::Equal) {
            let init = expression(ts, moved(c1));
            let c2 = after(ts, moved(c1), init);
            if init.result is Err {
                rethrow(init)
            } else if !check(ts, c2, TokenType::Semicolon) {
                fail(c2, ts[c2.curr], "Expect ';' after variable declaration.")
            } else {
                ok(moved(c2), Stmt::Let(Let { token, initializer: Some(got(init)) }))
            }
        } else if !check(ts, c1, TokenType::Semicolon) {
            fail(c1, ts[c1.curr], "Expect ';' after variable declaration.")
        } else {
            ok(moved(c1), Stmt::Let(Let { token, initializer: None }))
        }
    }
}

/// A function from its name on: name, parameters, body.
pub open spec fn func_declaration(ts: Seq<Rc<Token>>, c: Cursor, kind: FuncType) -> Parsed<Func>
    decreases ts.len() - c.curr, 35int,
    when on(ts, c)
{
    if !check(ts, c, TokenType::Identifier) {
        fail(c, ts[c.curr], name_message(kind))
    } else if !check(ts, moved(c), TokenType::OpenParen) {
        fail(moved(c), ts[c.curr + 1], "Expect '(' after function name.")
    } else {
        let params = params_rest(ts, moved(moved(c)), List::Nil, 0);
        let c1 = after(ts, moved(moved(c)), params);
        if params.result is Err {
            rethrow(params)
        } else if !check(ts, c1, TokenType::CloseParen) {
            fail(c1, ts[c1.curr], "Expect ')' after parameters.")
        } else if !check(ts, moved(c1), TokenType::OpenBrace) {
            fail(moved(c1), ts[c1.curr + 1], body_message(kind))
        } else {
            let body = block(ts, moved(moved(c1)));
            if body.result is Err {
                rethrow(body)
            } else {
                ok(body.at, Func { token: ts[c.curr], params: got(params), body: got(body) })
            }
        }
    }
}

/// What follows `class`.
pub open spec fn class_declaration(ts: Seq<Rc<Token>>, c: Cursor) -> Parsed<Stmt>
    decreases ts.len() - c.curr, 50int,
    when on(ts, c)
{
    if !check(ts, c, TokenType::Identifier) {
        fail(c, ts[c.curr], "Expect class name.")
    } else {
        let c1 = moved(c);
        if check(ts, c1, TokenType::Less) {
            if !check(ts, moved(c1), TokenType::Identifier) {
                fail(moved(c1), ts[c1.curr + 1], "Expect superclass name.")
            } else {
                class_body(
                    ts,
                    numbered(moved(moved(c1))),
                    ts[c.curr],
                    Some(Var { id: c1.next_id, token: ts[c1.curr + 1] }),
                )
            }
        } else {
            class_body(ts, c1, ts[c.curr], None)
        }
    }
}

/// The body of a class: its methods between braces.
pub open spec fn class_body(ts: Seq<Rc<Token>>, c: Cursor, token: Rc<Token>, superclass: Option<Var>) -> Parsed<
    Stmt,
>
    decreases ts.len() - c.curr, 47int,
    when on(ts, c)
{
    if !check(ts, c, TokenType::OpenBrace) {
        fail(c, ts[c.curr], "Expect '{' before class body.")
    } else {
        let methods = methods_rest(ts, moved(c), List::Nil);
        if methods.result is Err {
            rethrow(methods)
        } else {
            ok(methods.at, Stmt::Class(Class { token, methods: got(methods), superclass }))
        }
    }
}

/// The methods from `c` up to the closing brace, behind those in `found`,
/// which is in reverse order.
pub open spec fn methods_rest(ts: Seq<Rc<Token>>, c: Cursor, found: List<Rc<Func>>) -> Parsed<
    List<Rc<Func>>,
>
    decreases ts.len() - c.curr, 46int,
    when on(ts, c)
{
    if !check(ts, c, TokenType::CloseBrace) && !at_end(ts, c) {
        let f = func_declaration(ts, c, FuncType::Method);
        if f.result is Err {
            rethrow(f)
        } else if c.curr < f.at.curr < ts.len() {
            methods_rest(ts, f.at, List::Cons(Box::new(Rc::new(got(f))), Box::new(found)))
        } else {
            rethrow(f)
        }
    } else if !check(ts, c, TokenType::CloseBrace) {
        fail(c, ts[c.curr], "Expect '}' after class body.")
    } else {
        ok(moved(c), found.reversed())
    }
}

pub open spec fn expression(ts: Seq<Rc<Token>>, c: Cursor) -> Parsed<Expr>
    decreases ts.len() - c.curr, 27int,
    when on(ts, c)
{
    assignment(ts, c)
}

/// An assignment, which is right-associative, or what stands below it. The
/// target is a variable or a property; at any other, the `=` is an error.
pub open spec fn assignment(ts: Seq<Rc<Token>>, c: Cursor) -> Parsed<Expr>
    decreases ts.len() - c.curr, 26int,
    when on(ts, c)
{
    let target = binary(ts, c, 5);
    let c1 = after(ts, c, target);
    if target.result is Err {
        target
    } else if !check(ts, c1, TokenType::Equal) {
        target
    } else {
        match got(target) {
            Expr::Var(v) => {
                let value = assignment(ts, moved(c1));
                let c2 = after(ts, moved(c1), value);
                if value.result is Err {
                    value
                } else {
                    ok(
                        numbered(c2),
                        Expr::Assign(Assign { id: c2.next_id, token: v.token, value: Box::new(got(value)) }),
                    )
                }
            },
            Expr::Get(g) => {
                let value = assignment(ts, moved(c1));
                let c2 = after(ts, moved(c1), value);
                if value.result is Err {
                    value
                } else {
                    ok(
                        numbered(c2),
                        Expr::SetField(
                            SetField {
                                id: c2.next_id,
                                object: g.object,
                                token: g.token,
                                value: Box::new(got(value)),
                            },
                        ),
                    )
                }
            },
            _ => fail(moved(c1), ts[c1.curr], "Invalid assignment target."),
        }
    }
}

/// A chain of operands of the level below, joined by operators of `level`,
/// to the left first.
pub open spec fn binary(ts: Seq<Rc<Token>>, c: Cursor, level: int) -> Parsed<Expr>
    decreases ts.len() - c.curr, 15 + 2 * level,
    when on(ts, c) && 0 <= level <= 5
{
    let left = if level == 0 {
        unary(ts, c)
    } else {
        binary(ts, c, level - 1)
    };
    if left.result is Err {
        left
    } else {
        binary_rest(ts, after(ts, c, left), level, got(left))
    }
}

/// What follows the operands joined so far in `left`.
pub open spec fn binary_rest(ts: Seq<Rc<Token>>, c: Cursor, level: int, left: Expr) -> Parsed<Expr>
    decreases ts.len() - c.curr, 14 + 2 * level,
    when on(ts, c) && 0 <= level <= 5
{
    if !at_end(ts, c) && binds(ts[c.curr].token_type, level) {
        let right = if level == 0 {
            unary(ts, moved(c))
        } else {
            binary(ts, moved(c), level - 1)
        };
        let c1 = after(ts, moved(c), right);
        if right.result is Err {
            right
        } else {
            binary_rest(ts, numbered(c1), level, joined(level, c1.next_id, left, ts[c.curr], got(right)))
        }
    } else {
        ok(c, left)
    }
}

pub open spec fn unary(ts: Seq<Rc<Token>>, c: Cursor) -> Parsed<Expr>
    decreases ts.len() - c.curr, 13int,
    when on(ts, c)
{
    if check(ts, c, TokenType::Bang) || check(ts, c, TokenType::Minus) {
        let right = unary(ts, moved(c));
        let c1 = after(ts, moved(c), right);
        if right.result is Err {
            right
        } else {
            ok(
                numbered(c1),
                Expr::Unary(Unary { id: c1.next_id, operator: ts[c.curr], right: Box::new(got(right)) }),
            )
        }
    } else {
        call(ts, c)
    }
}

pub open spec fn call(ts: Seq<Rc<Token>>, c: Cursor) -> Parsed<Expr>
    decreases ts.len() - c.curr, 12int,
    when on(ts, c)
{
    let callee = primary(ts, c);
    if callee.result is Err {
        callee
    } else {
        call_rest(ts, after(ts, c, callee), got(callee))
    }
}

/// The calls and property accesses that follow `expr`.
pub open spec fn call_rest(ts: Seq<Rc<Token>>, c: Cursor, expr: Expr) -> Parsed<Expr>
    decreases ts.len() - c.curr, 11int,
    when on(ts, c)
{
    if check(ts, c, TokenType::OpenParen) {
        let called = finish_call_rest(ts, moved(c), expr, List::Nil, 0);
        if called.result is Err {
            called
        } else {
            call_rest(ts, after(ts, moved(c), called), got(called))
        }
    } else if check(ts, c, TokenType::Dot) {
        if !check(ts, moved(c), TokenType::Identifier) {
            fail(moved(c), ts[c.curr + 1], "Expect property name after '.'")
        } else {
            call_rest(
                ts,
                numbered(moved(moved(c))),
                Expr::Get(Get { id: c.next_id, object: Box::new(expr), token: ts[c.curr + 1] }),
            )
        }
    } else {
        ok(c, expr)
    }
}

/// The arguments from `c` on, behind those in `found`, which is in reverse
/// order and holds `count` of them; then the call of `callee` with them.
pub open spec fn finish_call_rest(
    ts: Seq<Rc<Token>>,
    c: Cursor,
    callee: Expr,
    found: List<Expr>,
    count: int,
) -> Parsed<Expr>
    decreases ts.len() - c.curr, 45int,
    when on(ts, c)
{
    if check(ts, c, TokenType::CloseParen) {
        finish_call_close(ts, c, callee, found)
    } else {
        let arg = expression(ts, c);
        let c1 = after(ts, c, arg);
        if arg.result is Err {
            arg
        } else if count + 1 > 255 {
            fail(c1, ts[c1.curr], "Can't have more than 255 arguments.")
        } else if check(ts, c1, TokenType::Comma) {
            finish_call_rest(
                ts,
                moved(c1),
                callee,
                List::Cons(Box::new(got(arg)), Box::new(found)),
                count + 1,
            )
        } else {
            finish_call_close(ts, c1, callee, List::Cons(Box::new(got(arg)), Box::new(found)))
        }
    }
}

/// The closing parenthesis of a call, and the call.
pub open spec fn finish_call_close(ts: Seq<Rc<Token>>, c: Cursor, callee: Expr, found: List<Expr>) -> Parsed<
    Expr,
> {
    if !check(ts, c, TokenType::CloseParen) {
        fail(c, ts[c.curr], "Expected ')' after arguments.")
    } else {
        ok(
            numbered(moved(c)),
            Expr::Call(
                Call { id: c.next_id, callee: Box::new(callee), paren: ts[c.curr], args: found.reversed() },
            ),
        )
    }
}

/// A literal, a name, a parenthesized expression, `this`, or `super` with a
/// method name. At the end of the tokens, and at any other token, an error.
pub open spec fn primary(ts: Seq<Rc<Token>>, c: Cursor) -> Parsed<Expr>
    decreases ts.len() - c.curr, 10int,
    when on(ts, c)
{
    let token = ts[c.curr];
    let token_type = token.token_type;
    let c1 = moved(c);
    if token_type == TokenType::Eof {
        fail(c, token, "Expected expression.")
    } else if token_type == TokenType::False {
        ok(numbered(c1), Expr::Literal(Literal { id: c.next_id, value: Value::Bool(false) }))
    } else if token_type == TokenType::True {
        ok(numbered(c1), Expr::Literal(Literal { id: c.next_id, value: Value::Bool(true) }))
    } else if token_type == TokenType::Nil {
        ok(numbered(c1), Expr::Literal(Literal { id: c.next_id, value: Value::Nil }))
    } else if token_type == TokenType::Number || token_type == TokenType::String {
        ok(numbered(c1), Expr::Literal(Literal { id: c.next_id, value: token.literal }))
    } else if token_type == TokenType::Identifier {
        ok(numbered(c1), Expr::Var(Var { id: c.next_id, token }))
    } else if token_type == TokenType::OpenParen {
        let inner = expression(ts, c1);
        let c2 = after(ts, c1, inner);
        if inner.result is Err {
            inner
        } else if !check(ts, c2, TokenType::CloseParen) {
            fail(c2, ts[c2.curr], "Expect ')' after expression.")
        } else {
            ok(numbered(moved(c2)), Expr::Grouping(Grouping { id: c2.next_id, expr: Box::new(got(inner)) }))
        }
    } else if token_type == TokenType::This {
        ok(numbered(c1), Expr::This(This { id: c.next_id, keyword: token }))
    } else if token_type == TokenType::Super {
        if !check(ts, c1, TokenType::Dot) {
            fail(c1, ts[c1.curr], "Expect '.' after 'super'.")
        } else if !check(ts, moved(c1), TokenType::Identifier) {
            fail(moved(c1), ts[c1.curr + 1], "Expect superclass method name.")
        } else {
            ok(
                numbered(moved(moved(c1))),
                Expr::Super(Super { id: c.next_id, keyword: token, method: ts[c1.curr + 1] }),
            )
        }
    } else {
        fail(c1, token, "Expected expression.")
    }
}

/// A parsed program: its statements, the errors found on the way, each in
/// order, and where the parse stands.
pub struct Program {
    pub stmts: Seq<Stmt>,
    pub errors: Seq<ParseError>,
    pub at: Cursor,
}

/// The program from `c` on, behind the statements and the errors found
/// before. After an error the parse resumes where `synchronize` says.
pub open spec fn parse_from(ts: Seq<Rc<Token>>, c: Cursor, stmts: Seq<Stmt>, errors: Seq<ParseError>) -> Program
    decreases ts.len() - c.curr,
    when on(ts, c)
{
    if at_end(ts, c) {
        Program { stmts, errors, at: c }
    } else {
        let d = declaration(ts, c);
        match d.result {
            Ok(s) => if c.curr < d.at.curr < ts.len() {
                parse_from(ts, d.at, stmts.push(s), errors)
            } else {
                Program { stmts: stmts.push(s), errors, at: d.at }
            },
            Err(e) => {
                let c1 = synchronize(ts, after(ts, c, d));
                if c.curr < c1.curr < ts.len() {
                    parse_from(ts, c1, stmts, errors.push(e))
                } else {
                    Program { stmts, errors: errors.push(e), at: c1 }
                }
            },
        }
    }
}

/// The program that a token list spells, with identifiers from `next_id` on.
pub open spec fn parse(ts: Seq<Rc<Token>>, c: Cursor) -> Program {
    parse_from(ts, c, Seq::empty(), Seq::empty())
}

} // verus!
