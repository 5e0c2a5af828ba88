//! Parses move on: no function of the grammar leaves the token list or
//! goes back in it, and each that yields a tree has passed a token.
//!
//! The functions of the grammar say what they do where a step would not
//! move on. The theorems of this module say that no step is such a step.

use crate::ast::expr::Expr;
use crate::ast::grammar::after;
use crate::ast::grammar::assignment;
use crate::ast::grammar::at_end;
use crate::ast::grammar::binary;
use crate::ast::grammar::binary_rest;
use crate::ast::grammar::binds;
use crate::ast::grammar::block;
use crate::ast::grammar::block_rest;
use crate::ast::grammar::call;
use crate::ast::grammar::call_rest;
use crate::ast::grammar::check;
use crate::ast::grammar::class_body;
use crate::ast::grammar::class_declaration;
use crate::ast::grammar::declaration;
use crate::ast::grammar::expr_stmt;
use crate::ast::grammar::expression;
use crate::ast::grammar::finish_call_rest;
use crate::ast::grammar::for_body;
use crate::ast::grammar::for_condition;
use crate::ast::grammar::for_increment;
use crate::ast::grammar::for_stmt;
use crate::ast::grammar::func_declaration;
use crate::ast::grammar::got;
use crate::ast::grammar::if_stmt;
use crate::ast::grammar::joined;
use crate::ast::grammar::let_declaration;
use crate::ast::grammar::methods_rest;
use crate::ast::grammar::moved;
use crate::ast::grammar::numbered;
use crate::ast::grammar::on;
use crate::ast::grammar::params_rest;
use crate::ast::grammar::parse;
use crate::ast::grammar::parse_from;
use crate::ast::grammar::previous;
use crate::ast::grammar::primary;
use crate::ast::grammar::print_stmt;
use crate::ast::grammar::return_stmt;
use crate::ast::grammar::stmt;
use crate::ast::grammar::synchronize;
use crate::ast::grammar::unary;
use crate::ast::grammar::while_stmt;
use crate::ast::grammar::Cursor;
use crate::ast::grammar::Parsed;
use crate::ast::list::List;
use crate::ast::stmt::Func;
use crate::ast::stmt::Stmt;
use crate::callables::callable::FuncType;
use crate::error::ParseError;
use crate::token::Token;
use crate::token::TokenType;
use std::rc::Rc;
use vstd::prelude::*;

verus! {

/// The parse stands on a token, at or behind the token that it began at.
pub open spec fn stays<T>(ts: Seq<Rc<Token>>, c: Cursor, p: Parsed<T>) -> bool {
    c.curr <= p.at.curr < ts.len()
}

/// The parse stays in the tokens; and if it yields a tree, it stands
/// behind the token that it began at.
pub open spec fn advances<T>(ts: Seq<Rc<Token>>, c: Cursor, p: Parsed<T>) -> bool {
    stays(ts, c, p) && (p.result is Ok ==> c.curr < p.at.curr)
}

proof fn lemma_params_rest(ts: Seq<Rc<Token>>, c: Cursor, found: List<Rc<Token>>, count: int)
    requires
        on(ts, c),
    ensures
        stays(ts, c, params_rest(ts, c, found, count)),
    decreases ts.len() - c.curr,
{
    if !check(ts, c, TokenType::CloseParen) && count < 255 && check(ts, c, TokenType::Identifier) && check(
        ts,
        moved(c),
        TokenType::Comma,
    ) {
        lemma_params_rest(
            ts,
            moved(moved(c)),
            List::Cons(Box::new(ts[c.curr]), Box::new(found)),
            count + 1,
        );
    }
}

proof fn lemma_declaration(ts: Seq<Rc<Token>>, c: Cursor)
    requires
        on(ts, c),
    ensures
        advances(ts, c, declaration(ts, c)),
    decreases ts.len() - c.curr, 30int,
{
    let token_type = ts[c.curr].token_type;
    if token_type == TokenType::Let {
        lemma_let_declaration(ts, moved(c));
    } else if token_type == TokenType::Fn {
        lemma_func_declaration(ts, moved(c), FuncType::Function);
    } else if token_type == TokenType::Class {
        lemma_class_declaration(ts, moved(c));
    } else {
        lemma_stmt(ts, c);
    }
}

proof fn lemma_stmt(ts: Seq<Rc<Token>>, c: Cursor)
    requires
        on(ts, c),
    ensures
        advances(ts, c, stmt(ts, c)),
    decreases ts.len() - c.curr, 29int,
{
    let token_type = ts[c.curr].token_type;
    if token_type == TokenType::If {
        lemma_if_stmt(ts, moved(c));
    } else if token_type == TokenType::Print {
        lemma_print_stmt(ts, moved(c));
    } else if token_type == TokenType::While {
        lemma_while_stmt(ts, moved(c));
    } else if token_type == TokenType::For {
        lemma_for_stmt(ts, moved(c));
    } else if token_type == TokenType::Return {
        lemma_return_stmt(ts, moved(c));
    } else if token_type == TokenType::OpenBrace {
        lemma_block(ts, moved(c));
    } else {
        lemma_expr_stmt(ts, c);
    }
}

proof fn lemma_if_stmt(ts: Seq<Rc<Token>>, c: Cursor)
    requires
        on(ts, c),
    ensures
        stays(ts, c, if_stmt(ts, c)),
    decreases ts.len() - c.curr, 50int,
{
    if check(ts, c, TokenType::OpenParen) {
        lemma_expression(ts, moved(c));
        let cond = expression(ts, moved(c));
        let c1 = after(ts, moved(c), cond);
        if cond.result is Ok && check(ts, c1, TokenType::CloseParen) {
            lemma_stmt(ts, moved(c1));
            let body = stmt(ts, moved(c1));
            let c2 = after(ts, moved(c1), body);
            if body.result is Ok && check(ts, c2, TokenType::Else) {
                lemma_stmt(ts, moved(c2));
            }
        }
    }
}

proof fn lemma_print_stmt(ts: Seq<Rc<Token>>, c: Cursor)
    requires
        on(ts, c),
    ensures
        stays(ts, c, print_stmt(ts, c)),
    decreases ts.len() - c.curr, 50int,
{
    lemma_expression(ts, c);
}

proof fn lemma_while_stmt(ts: Seq<Rc<Token>>, c: Cursor)
    requires
        on(ts, c),
    ensures
        stays(ts, c, while_stmt(ts, c)),
    decreases ts.len() - c.curr, 50int,
{
    if check(ts, c, TokenType::OpenParen) {
        lemma_expression(ts, moved(c));
        let cond = expression(ts, moved(c));
        let c1 = after(ts, moved(c), cond);
        if cond.result is Ok && check(ts, c1, TokenType::CloseParen) {
            lemma_stmt(ts, moved(c1));
        }
    }
}

proof fn lemma_for_stmt(ts: Seq<Rc<Token>>, c: Cursor)
    requires
        on(ts, c),
    ensures
        stays(ts, c, for_stmt(ts, c)),
    decreases ts.len() - c.curr, 50int,
{
    if check(ts, c, TokenType::OpenParen) {
        let c1 = moved(c);
        let token_type = ts[c1.curr].token_type;
        if token_type == TokenType::Semicolon {
            lemma_for_condition(ts, moved(c1), previous(ts, c), None);
        } else {
            if token_type == TokenType::Let {
                lemma_let_declaration(ts, moved(c1));
            } else {
                lemma_expr_stmt(ts, c1);
            }
            let init = if token_type == TokenType::Let {
                let_declaration(ts, moved(c1))
            } else {
                expr_stmt(ts, c1)
            };
            if init.result is Ok {
                lemma_for_condition(ts, after(ts, c1, init), previous(ts, c), Some(got(init)));
            }
        }
    }
}

proof fn lemma_for_condition(ts: Seq<Rc<Token>>, c: Cursor, keyword: Rc<Token>, init: Option<Stmt>)
    requires
        on(ts, c),
    ensures
        stays(ts, c, for_condition(ts, c, keyword, init)),
    decreases ts.len() - c.curr, 49int,
{
    if check(ts, c, TokenType::Semicolon) {
        lemma_for_increment(
            ts,
            moved(numbered(c)),
            keyword,
            init,
            Expr::Literal(
                crate::ast::expr::Literal { id: c.next_id, value: crate::token::Value::Bool(true) },
            ),
        );
    } else {
        lemma_expression(ts, c);
        let cond = expression(ts, c);
        let c1 = after(ts, c, cond);
        if cond.result is Ok && check(ts, c1, TokenType::Semicolon) {
            lemma_for_increment(ts, moved(c1), keyword, init, got(cond));
        }
    }
}

proof fn lemma_for_increment(ts: Seq<Rc<Token>>, c: Cursor, keyword: Rc<Token>, init: Option<Stmt>, cond: Expr)
    requires
        on(ts, c),
    ensures
        stays(ts, c, for_increment(ts, c, keyword, init, cond)),
    decreases ts.len() - c.curr, 48int,
{
    if check(ts, c, TokenType::CloseParen) {
        lemma_for_body(ts, moved(c), keyword, init, cond, None);
    } else {
        lemma_expression(ts, c);
        let inc = expression(ts, c);
        let c1 = after(ts, c, inc);
        if inc.result is Ok && check(ts, c1, TokenType::CloseParen) {
            lemma_for_body(ts, moved(c1), keyword, init, cond, Some(got(inc)));
        }
    }
}

proof fn lemma_for_body(
    ts: Seq<Rc<Token>>,
    c: Cursor,
    keyword: Rc<Token>,
    init: Option<Stmt>,
    cond: Expr,
    inc: Option<Expr>,
)
    requires
        on(ts, c),
    ensures
        stays(ts, c, for_body(ts, c, keyword, init, cond, inc)),
    decreases ts.len() - c.curr, 47int,
{
    lemma_stmt(ts, c);
}

proof fn lemma_return_stmt(ts: Seq<Rc<Token>>, c: Cursor)
    requires
        on(ts, c),
    ensures
        stays(ts, c, return_stmt(ts, c)),
    decreases ts.len() - c.curr, 50int,
{
    if !check(ts, c, TokenType::Semicolon) {
        lemma_expression(ts, c);
    }
}

proof fn lemma_block(ts: Seq<Rc<Token>>, c: Cursor)
    requires
        on(ts, c),
    ensures
        advances(ts, c, block(ts, c)),
    decreases ts.len() - c.curr, 41int,
{
    lemma_block_rest(ts, c, List::Nil);
}

proof fn lemma_block_rest(ts: Seq<Rc<Token>>, c: Cursor, found: List<Stmt>)
    requires
        on(ts, c),
    ensures
        advances(ts, c, block_rest(ts, c, found)),
    decreases ts.len() - c.curr, 40int,
{
    if !check(ts, c, TokenType::CloseBrace) && !at_end(ts, c) {
        lemma_declaration(ts, c);
        let d = declaration(ts, c);
        if d.result is Ok {
            lemma_block_rest(ts, d.at, List::Cons(Box::new(got(d)), Box::new(found)));
        }
    }
}

proof fn lemma_expr_stmt(ts: Seq<Rc<Token>>, c: Cursor)
    requires
        on(ts, c),
    ensures
        advances(ts, c, expr_stmt(ts, c)),
    decreases ts.len() - c.curr, 28int,
{
    lemma_expression(ts, c);
}

proof fn lemma_let_declaration(ts: Seq<Rc<Token>>, c: Cursor)
    requires
        on(ts, c),
    ensures
        stays(ts, c, let_declaration(ts, c)),
    decreases ts.len() - c.curr, 50int,
{
    if check(ts, c, TokenType::Identifier) && check(ts, moved(c), TokenType::Equal) {
        lemma_expression(ts, moved(moved(c)));
    }
}

proof fn lemma_func_declaration(ts: Seq<Rc<Token>>, c: Cursor, kind: FuncType)
    requires
        on(ts, c),
    ensures
        advances(ts, c, func_declaration(ts, c, kind)),
    decreases ts.len() - c.curr, 35int,
{
    if check(ts, c, TokenType::Identifier) && check(ts, moved(c), TokenType::OpenParen) {
        lemma_params_rest(ts, moved(moved(c)), List::Nil, 0);
        let params = params_rest(ts, moved(moved(c)), List::Nil, 0);
        let c1 = after(ts, moved(moved(c)), params);
        if params.result is Ok && check(ts, c1, TokenType::CloseParen) && check(
            ts,
            moved(c1),
            TokenType::OpenBrace,
        ) {
            lemma_block(ts, moved(moved(c1)));
        }
    }
}

proof fn lemma_class_declaration(ts: Seq<Rc<Token>>, c: Cursor)
    requires
        on(ts, c),
    ensures
        stays(ts, c, class_declaration(ts, c)),
    decreases ts.len() - c.curr, 50int,
{
    if check(ts, c, TokenType::Identifier) {
        let c1 = moved(c);
        if check(ts, c1, TokenType::Less) {
            if check(ts, moved(c1), TokenType::Identifier) {
                lemma_class_body(
                    ts,
                    numbered(moved(moved(c1))),
                    ts[c.curr],
                    Some(crate::ast::expr::Var { id: c1.next_id, token: ts[c1.curr + 1] }),
                );
            }
        } else {
            lemma_class_body(ts, c1, ts[c.curr], None);
        }
    }
}

proof fn lemma_class_body(
    ts: Seq<Rc<Token>>,
    c: Cursor,
    token: Rc<Token>,
    superclass: Option<crate::ast::expr::Var>,
)
    requires
        on(ts, c),
    ensures
        stays(ts, c, class_body(ts, c, token, superclass)),
    decreases ts.len() - c.curr, 47int,
{
    if check(ts, c, TokenType::OpenBrace) {
        lemma_methods_rest(ts, moved(c), List::Nil);
    }
}

proof fn lemma_methods_rest(ts: Seq<Rc<Token>>, c: Cursor, found: List<Rc<Func>>)
    requires
        on(ts, c),
    ensures
        stays(ts, c, methods_rest(ts, c, found)),
    decreases ts.len() - c.curr, 46int,
{
    if !check(ts, c, TokenType::CloseBrace) && !at_end(ts, c) {
        lemma_func_declaration(ts, c, FuncType::Method);
        let f = func_declaration(ts, c, FuncType::Method);
        if f.result is Ok {
            lemma_methods_rest(ts, f.at, List::Cons(Box::new(Rc::new(got(f))), Box::new(found)));
        }
    }
}

proof fn lemma_expression(ts: Seq<Rc<Token>>, c: Cursor)
    requires
        on(ts, c),
    ensures
        advances(ts, c, expression(ts, c)),
    decreases ts.len() - c.curr, 27int,
{
    lemma_assignment(ts, c);
}

proof fn lemma_assignment(ts: Seq<Rc<Token>>, c: Cursor)
    requires
        on(ts, c),
    ensures
        advances(ts, c, assignment(ts, c)),
    decreases ts.len() - c.curr, 26int,
{
    lemma_binary(ts, c, 5);
    let target = binary(ts, c, 5);
    let c1 = after(ts, c, target);
    if target.result is Ok && check(ts, c1, TokenType::Equal) {
        match got(target) {
            Expr::Var(_) => {
                lemma_assignment(ts, moved(c1));
            },
            Expr::Get(_) => {
                lemma_assignment(ts, moved(c1));
            },
            _ => {},
        }
    }
}

proof fn lemma_binary(ts: Seq<Rc<Token>>, c: Cursor, level: int)
    requires
        on(ts, c),
        0 <= level <= 5,
    ensures
        advances(ts, c, binary(ts, c, level)),
    decreases ts.len() - c.curr, 15 + 2 * level,
{
    if level == 0 {
        lemma_unary(ts, c);
    } else {
        lemma_binary(ts, c, level - 1);
    }
    let left = if level == 0 {
        unary(ts, c)
    } else {
        binary(ts, c, level - 1)
    };
    if left.result is Ok {
        lemma_binary_rest(ts, after(ts, c, left), level, got(left));
    }
}

proof fn lemma_binary_rest(ts: Seq<Rc<Token>>, c: Cursor, level: int, left: Expr)
    requires
        on(ts, c),
        0 <= level <= 5,
    ensures
        stays(ts, c, binary_rest(ts, c, level, left)),
    decreases ts.len() - c.curr, 14 + 2 * level,
{
    if !at_end(ts, c) && binds(ts[c.curr].token_type, level) {
        if level == 0 {
            lemma_unary(ts, moved(c));
        } else {
            lemma_binary(ts, moved(c), level - 1);
        }
        let right = if level == 0 {
            unary(ts, moved(c))
        } else {
            binary(ts, moved(c), level - 1)
        };
        let c1 = after(ts, moved(c), right);
        if right.result is Ok {
            lemma_binary_rest(
                ts,
                numbered(c1),
                level,
                joined(level, c1.next_id, left, ts[c.curr], got(right)),
            );
        }
    }
}

proof fn lemma_unary(ts: Seq<Rc<Token>>, c: Cursor)
    requires
        on(ts, c),
    ensures
        advances(ts, c, unary(ts, c)),
    decreases ts.len() - c.curr, 13int,
{
    if check(ts, c, TokenType::Bang) || check(ts, c, TokenType::Minus) {
        lemma_unary(ts, moved(c));
    } else {
        lemma_call(ts, c);
    }
}

proof fn lemma_call(ts: Seq<Rc<Token>>, c: Cursor)
    requires
        on(ts, c),
    ensures
        advances(ts, c, call(ts, c)),
    decreases ts.len() - c.curr, 12int,
{
    lemma_primary(ts, c);
    let callee = primary(ts, c);
    if callee.result is Ok {
        lemma_call_rest(ts, after(ts, c, callee), got(callee));
    }
}

proof fn lemma_call_rest(ts: Seq<Rc<Token>>, c: Cursor, expr: Expr)
    requires
        on(ts, c),
    ensures
        stays(ts, c, call_rest(ts, c, expr)),
    decreases ts.len() - c.curr, 11int,
{
    if check(ts, c, TokenType::OpenParen) {
        lemma_finish_call_rest(ts, moved(c), expr, List::Nil, 0);
        let called = finish_call_rest(ts, moved(c), expr, List::Nil, 0);
        if called.result is Ok {
            lemma_call_rest(ts, after(ts, moved(c), called), got(called));
        }
    } else if check(ts, c, TokenType::Dot) {
        if check(ts, moved(c), TokenType::Identifier) {
            lemma_call_rest(
                ts,
                numbered(moved(moved(c))),
                Expr::Get(
                    crate::ast::expr::Get { id: c.next_id, object: Box::new(expr), token: ts[c.curr + 1] },
                ),
            );
        }
    }
}

proof fn lemma_finish_call_rest(ts: Seq<Rc<Token>>, c: Cursor, callee: Expr, found: List<Expr>, count: int)
    requires
        on(ts, c),
    ensures
        stays(ts, c, finish_call_rest(ts, c, callee, found, count)),
    decreases ts.len() - c.curr, 45int,
{
    if !check(ts, c, TokenType::CloseParen) {
        lemma_expression(ts, c);
        let arg = expression(ts, c);
        let c1 = after(ts, c, arg);
        if arg.result is Ok && count + 1 <= 255 && check(ts, c1, TokenType::Comma) {
            lemma_finish_call_rest(
                ts,
                moved(c1),
                callee,
                List::Cons(Box::new(got(arg)), Box::new(found)),
                count + 1,
            );
        }
    }
}

proof fn lemma_primary(ts: Seq<Rc<Token>>, c: Cursor)
    requires
        on(ts, c),
    ensures
        advances(ts, c, primary(ts, c)),
    decreases ts.len() - c.curr, 10int,
{
    if ts[c.curr].token_type == TokenType::OpenParen {
        lemma_expression(ts, moved(c));
    }
}

proof fn lemma_synchronize(ts: Seq<Rc<Token>>, c: Cursor)
    requires
        on(ts, c),
    ensures
        c.curr <= synchronize(ts, c).curr < ts.len(),
        !at_end(ts, c) ==> c.curr < synchronize(ts, c).curr,
        synchronize(ts, c).next_id == c.next_id,
    decreases ts.len() - c.curr,
{
    if !at_end(ts, c) && ts[c.curr].token_type != TokenType::Semicolon && !crate::ast::grammar::starts_statement(
        ts[c.curr + 1].token_type,
    ) {
        lemma_synchronize(ts, moved(c));
    }
}

proof fn lemma_parse_from(ts: Seq<Rc<Token>>, c: Cursor, stmts: Seq<Stmt>, errors: Seq<ParseError>)
    requires
        on(ts, c),
    ensures
        on(ts, parse_from(ts, c, stmts, errors).at),
        at_end(ts, parse_from(ts, c, stmts, errors).at),
        c.curr <= parse_from(ts, c, stmts, errors).at.curr,
    decreases ts.len() - c.curr,
{
    if !at_end(ts, c) {
        lemma_declaration(ts, c);
        let d = declaration(ts, c);
        match d.result {
            Ok(s) => {
                lemma_parse_from(ts, d.at, stmts.push(s), errors);
            },
            Err(e) => {
                lemma_synchronize(ts, after(ts, c, d));
                let c1 = synchronize(ts, after(ts, c, d));
                lemma_parse_from(ts, c1, stmts, errors.push(e));
            },
        }
    }
}

/// Whatever the tokens: an expression that is parsed from a place in them
/// ends at a place in them, not before the one it began at, and behind it
/// if it yielded a tree.
pub proof fn expressions_move_on(ts: Seq<Rc<Token>>, c: Cursor)
    requires
        on(ts, c),
    ensures
        advances(ts, c, expression(ts, c)),
{
    lemma_expression(ts, c);
}

/// Whatever the tokens: a declaration that is parsed from a place in them
/// ends at a place in them, not before the one it began at, and behind it
/// if it yielded a tree.
pub proof fn declarations_move_on(ts: Seq<Rc<Token>>, c: Cursor)
    requires
        on(ts, c),
    ensures
        advances(ts, c, declaration(ts, c)),
{
    lemma_declaration(ts, c);
}

/// Whatever the tokens: a method that is parsed from a place in them ends
/// at a place in them, not before the one it began at, and behind it if it
/// yielded a tree.
pub proof fn methods_move_on(ts: Seq<Rc<Token>>, c: Cursor)
    requires
        on(ts, c),
    ensures
        advances(ts, c, func_declaration(ts, c, FuncType::Method)),
{
    lemma_func_declaration(ts, c, FuncType::Method);
}

/// Whatever the tokens: where parsing resumes after an error is a place in
/// them, and behind the place of the error unless that is the end.
pub proof fn synchronizing_moves_on(ts: Seq<Rc<Token>>, c: Cursor)
    requires
        on(ts, c),
    ensures
        c.curr <= synchronize(ts, c).curr < ts.len(),
        !at_end(ts, c) ==> c.curr < synchronize(ts, c).curr,
{
    lemma_synchronize(ts, c);
}

/// Whatever the tokens: the parse of a program ends on the end-of-file
/// token.
pub proof fn a_parse_reads_all_tokens(ts: Seq<Rc<Token>>, c: Cursor)
    requires
        on(ts, c),
    ensures
        on(ts, parse(ts, c).at),
        at_end(ts, parse(ts, c).at),
{
    lemma_parse_from(ts, c, Seq::empty(), Seq::empty());
}

} // verus!
