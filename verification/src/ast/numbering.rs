//! Identifiers: every expression of a parsed program has an identifier of
//! its own.
//!
//! The parser draws the identifier of each expression from a counter. The
//! theorems of this module say that, as long as the counter does not run
//! over, no two expressions of a parsed program bear the same identifier,
//! and that each identifier lies between the counter before the parse and
//! the counter behind it.

use crate::ast::expr::Expr;
use crate::ast::expr::Var;
use crate::ast::grammar::after;
use crate::ast::grammar::assignment;
use crate::ast::grammar::at_end;
use crate::ast::grammar::binary;
use crate::ast::grammar::binary_rest;
use crate::ast::grammar::binds;
use crate::ast::grammar::block;
use crate::ast::grammar::block_rest;
use crate::ast::grammar::call;
use crate::ast::grammar::call_rest;
use crate::ast::grammar::check;
use crate::ast::grammar::class_body;
use crate::ast::grammar::class_declaration;
use crate::ast::grammar::declaration;
use crate::ast::grammar::expr_stmt;
use crate::ast::grammar::expression;
use crate::ast::grammar::finish_call_close;
use crate::ast::grammar::finish_call_rest;
use crate::ast::grammar::for_body;
use crate::ast::grammar::for_condition;
use crate::ast::grammar::for_increment;
use crate::ast::grammar::for_loop;
use crate::ast::grammar::for_stmt;
use crate::ast::grammar::func_declaration;
use crate::ast::grammar::got;
use crate::ast::grammar::if_stmt;
use crate::ast::grammar::joined;
use crate::ast::grammar::let_declaration;
use crate::ast::grammar::methods_rest;
use crate::ast::grammar::moved;
use crate::ast::grammar::numbered;
use crate::ast::grammar::on;
use crate::ast::grammar::params_rest;
use crate::ast::grammar::parse;
use crate::ast::grammar::parse_from;
use crate::ast::grammar::previous;
use crate::ast::grammar::primary;
use crate::ast::grammar::print_stmt;
use crate::ast::grammar::return_stmt;
use crate::ast::grammar::stmt;
use crate::ast::grammar::synchronize;
use crate::ast::grammar::unary;
use crate::ast::grammar::while_stmt;
use crate::ast::grammar::Cursor;
use crate::ast::grammar::Parsed;
use crate::ast::list::List;
use crate::ast::progress::synchronizing_moves_on;
use crate::ast::stmt::Func;
use crate::ast::stmt::Stmt;
use crate::callables::callable::FuncType;
use crate::error::ParseError;
use crate::token::Token;
use crate::token::TokenType;
use std::rc::Rc;
use vstd::prelude::*;

verus! {

/// Whether an expression of the tree bears the identifier.
pub open spec fn expr_has(e: Expr, id: u64) -> bool
    decreases e,
{
    match e {
        Expr::Binary(b) => b.id == id || expr_has(*b.left, id) || expr_has(*b.right, id),
        Expr::Grouping(g) => g.id == id || expr_has(*g.expr, id),
        Expr::Literal(l) => l.id == id,
        Expr::Unary(u) => u.id == id || expr_has(*u.right, id),
        Expr::Var(v) => v.id == id,
        Expr::Assign(a) => a.id == id || expr_has(*a.value, id),
        Expr::Logical(b) => b.id == id || expr_has(*b.left, id) || expr_has(*b.right, id),
        Expr::Call(c) => c.id == id || expr_has(*c.callee, id) || exprs_have(c.args, id),
        Expr::Get(g) => g.id == id || expr_has(*g.object, id),
        Expr::SetField(s) => s.id == id || expr_has(*s.object, id) || expr_has(*s.value, id),
        Expr::This(t) => t.id == id,
        Expr::Super(s) => s.id == id,
    }
}

/// Whether an expression of one of the trees bears the identifier.
pub open spec fn exprs_have(l: List<Expr>, id: u64) -> bool
    decreases l,
{
    match l {
        List::Nil => false,
        List::Cons(first, rest) => expr_has(*first, id) || exprs_have(*rest, id),
    }
}

/// No identifier is borne by an expression of the one tree and by an
/// expression of the other.
pub open spec fn apart(a: Expr, b: Expr) -> bool {
    forall|x: u64| !(#[trigger] expr_has(a, x) && #[trigger] expr_has(b, x))
}

/// No two expressions of the tree bear the same identifier.
pub open spec fn expr_distinct(e: Expr) -> bool
    decreases e,
{
    match e {
        Expr::Binary(b) => expr_distinct(*b.left) && expr_distinct(*b.right) && apart(*b.left, *b.right)
            && !expr_has(*b.left, b.id) && !expr_has(*b.right, b.id),
        Expr::Grouping(g) => expr_distinct(*g.expr) && !expr_has(*g.expr, g.id),
        Expr::Literal(_) => true,
        Expr::Unary(u) => expr_distinct(*u.right) && !expr_has(*u.right, u.id),
        Expr::Var(_) => true,
        Expr::Assign(a) => expr_distinct(*a.value) && !expr_has(*a.value, a.id),
        Expr::Logical(b) => expr_distinct(*b.left) && expr_distinct(*b.right) && apart(*b.left, *b.right)
            && !expr_has(*b.left, b.id) && !expr_has(*b.right, b.id),
        Expr::Call(c) => expr_distinct(*c.callee) && exprs_distinct(c.args) && !expr_has(*c.callee, c.id)
            && !exprs_have(c.args, c.id) && forall|x: u64|
            !(#[trigger] expr_has(*c.callee, x) && #[trigger] exprs_have(c.args, x)),
        Expr::Get(g) => expr_distinct(*g.object) && !expr_has(*g.object, g.id),
        Expr::SetField(s) => expr_distinct(*s.object) && expr_distinct(*s.value) && apart(
            *s.object,
            *s.value,
        ) && !expr_has(*s.object, s.id) && !expr_has(*s.value, s.id),
        Expr::This(_) => true,
        Expr::Super(_) => true,
    }
}

/// No two expressions of the trees bear the same identifier.
pub open spec fn exprs_distinct(l: List<Expr>) -> bool
    decreases l,
{
    match l {
        List::Nil => true,
        List::Cons(first, rest) => expr_distinct(*first) && exprs_distinct(*rest) && forall|x: u64|
            !(#[trigger] expr_has(*first, x) && #[trigger] exprs_have(*rest, x)),
    }
}

/// Whether the expression, if there is one, holds the identifier.
pub open spec fn option_has(o: Option<Expr>, id: u64) -> bool {
    o matches Some(e) && expr_has(e, id)
}

/// Whether an expression of the statement bears the identifier.
pub open spec fn stmt_has(s: Stmt, id: u64) -> bool
    decreases s,
{
    match s {
        Stmt::StmtExpr(st) => expr_has(st.expr, id),
        Stmt::Print(st) => expr_has(st.expr, id),
        Stmt::Let(st) => option_has(st.initializer, id),
        Stmt::Block(st) => stmts_have(st.stmts, id),
        Stmt::If(st) => expr_has(st.condition, id) || stmt_has(*st.body, id) || (
        st.else_body matches Some(other) && stmt_has(*other, id)),
        Stmt::While(st) => expr_has(st.condition, id) || stmt_has(*st.body, id),
        Stmt::Func(f) => func_has(f, id),
        Stmt::Return(st) => option_has(st.value, id),
        Stmt::Class(st) => (st.superclass matches Some(v) && v.id == id) || funcs_have(st.methods, id),
    }
}

/// Whether an expression of one of the statements bears the identifier.
pub open spec fn stmts_have(l: List<Stmt>, id: u64) -> bool
    decreases l,
{
    match l {
        List::Nil => false,
        List::Cons(first, rest) => stmt_has(*first, id) || stmts_have(*rest, id),
    }
}

/// Whether an expression of the function's body bears the identifier.
pub open spec fn func_has(f: Rc<Func>, id: u64) -> bool
    decreases f,
{
    stmts_have(f.body, id)
}

/// Whether an expression of one of the functions bears the identifier.
pub open spec fn funcs_have(l: List<Rc<Func>>, id: u64) -> bool
    decreases l,
{
    match l {
        List::Nil => false,
        List::Cons(first, rest) => func_has(*first, id) || funcs_have(*rest, id),
    }
}

/// No two expressions of the statement bear the same identifier.
pub open spec fn stmt_distinct(s: Stmt) -> bool
    decreases s,
{
    match s {
        Stmt::StmtExpr(st) => expr_distinct(st.expr),
        Stmt::Print(st) => expr_distinct(st.expr),
        Stmt::Let(st) => st.initializer matches Some(e) ==> expr_distinct(e),
        Stmt::Block(st) => stmts_distinct(st.stmts),
        Stmt::If(st) => {
            &&& expr_distinct(st.condition)
            &&& stmt_distinct(*st.body)
            &&& forall|x: u64| !(#[trigger] expr_has(st.condition, x) && #[trigger] stmt_has(*st.body, x))
            &&& st.else_body matches Some(other) ==> {
                &&& stmt_distinct(*other)
                &&& forall|x: u64|
                    !(#[trigger] stmt_has(*other, x) && (#[trigger] expr_has(st.condition, x) || stmt_has(
                        *st.body,
                        x,
                    )))
                &&& forall|x: u64| !(#[trigger] stmt_has(*other, x) && #[trigger] stmt_has(*st.body, x))
            }
        },
        Stmt::While(st) => expr_distinct(st.condition) && stmt_distinct(*st.body) && forall|x: u64|
            !(#[trigger] expr_has(st.condition, x) && #[trigger] stmt_has(*st.body, x)),
        Stmt::Func(f) => func_distinct(f),
        Stmt::Return(st) => st.value matches Some(e) ==> expr_distinct(e),
        Stmt::Class(st) => funcs_distinct(st.methods) && (st.superclass matches Some(v) ==> !funcs_have(
            st.methods,
            v.id,
        )),
    }
}

/// No two expressions of the statements bear the same identifier.
pub open spec fn stmts_distinct(l: List<Stmt>) -> bool
    decreases l,
{
    match l {
        List::Nil => true,
        List::Cons(first, rest) => stmt_distinct(*first) && stmts_distinct(*rest) && forall|x: u64|
            !(#[trigger] stmt_has(*first, x) && #[trigger] stmts_have(*rest, x)),
    }
}

/// No two expressions of the function's body bear the same identifier.
pub open spec fn func_distinct(f: Rc<Func>) -> bool
    decreases f,
{
    stmts_distinct(f.body)
}

/// No two expressions of the functions bear the same identifier.
pub open spec fn funcs_distinct(l: List<Rc<Func>>) -> bool
    decreases l,
{
    match l {
        List::Nil => true,
        List::Cons(first, rest) => func_distinct(*first) && funcs_distinct(*rest) && forall|x: u64|
            !(#[trigger] func_has(*first, x) && #[trigger] funcs_have(*rest, x)),
    }
}

/// The expressions of the tree bear identifiers of their own, from `lo` up
/// to, not including, `hi`.
#[verifier::opaque]
pub open spec fn expr_numbered(e: Expr, lo: int, hi: int) -> bool {
    expr_distinct(e) && forall|x: u64| #[trigger] expr_has(e, x) ==> lo <= x < hi
}

#[verifier::opaque]
pub open spec fn exprs_numbered(l: List<Expr>, lo: int, hi: int) -> bool {
    exprs_distinct(l) && forall|x: u64| #[trigger] exprs_have(l, x) ==> lo <= x < hi
}

pub open spec fn option_numbered(o: Option<Expr>, lo: int, hi: int) -> bool {
    o matches Some(e) ==> expr_numbered(e, lo, hi)
}

/// The expressions of the statement bear identifiers of their own, from
/// `lo` up to, not including, `hi`.
#[verifier::opaque]
pub open spec fn stmt_numbered(s: Stmt, lo: int, hi: int) -> bool {
    stmt_distinct(s) && forall|x: u64| #[trigger] stmt_has(s, x) ==> lo <= x < hi
}

#[verifier::opaque]
pub open spec fn stmts_numbered(l: List<Stmt>, lo: int, hi: int) -> bool {
    stmts_distinct(l) && forall|x: u64| #[trigger] stmts_have(l, x) ==> lo <= x < hi
}

#[verifier::opaque]
pub open spec fn func_numbered(f: Rc<Func>, lo: int, hi: int) -> bool {
    func_distinct(f) && forall|x: u64| #[trigger] func_has(f, x) ==> lo <= x < hi
}

#[verifier::opaque]
pub open spec fn funcs_numbered(l: List<Rc<Func>>, lo: int, hi: int) -> bool {
    funcs_distinct(l) && forall|x: u64| #[trigger] funcs_have(l, x) ==> lo <= x < hi
}

/// No two expressions of the program bear the same identifier.
pub open spec fn program_distinct(stmts: Seq<Stmt>) -> bool {
    &&& forall|i: int| 0 <= i < stmts.len() ==> #[trigger] stmt_distinct(stmts[i])
    &&& forall|i: int, j: int, x: u64|
        0 <= i < j < stmts.len() ==> !(#[trigger] stmt_has(stmts[i], x) && #[trigger] stmt_has(stmts[j], x))
}

/// The expressions of the program bear identifiers of their own, from `lo`
/// up to, not including, `hi`.
#[verifier::opaque]
pub open spec fn program_numbered(stmts: Seq<Stmt>, lo: int, hi: int) -> bool {
    &&& program_distinct(stmts)
    &&& forall|i: int, x: u64| 0 <= i < stmts.len() && #[trigger] stmt_has(stmts[i], x) ==> lo <= x < hi
}

/// The counter does not run over before the tokens run out.
pub open spec fn budget(ts: Seq<Rc<Token>>, c: Cursor) -> bool {
    on(ts, c) && c.next_id + (ts.len() - c.curr) <= u64::MAX
}

/// The parse stays in the tokens, and it drew no more identifiers than it
/// passed tokens.
pub open spec fn spent<T>(ts: Seq<Rc<Token>>, c: Cursor, p: Parsed<T>) -> bool {
    &&& c.curr <= p.at.curr < ts.len()
    &&& c.next_id <= p.at.next_id
    &&& p.at.next_id - c.next_id <= p.at.curr - c.curr
}

/// The function that a declaration is held as.
pub open spec fn held(f: Func) -> Rc<Func> {
    Rc::new(f)
}

proof fn lemma_exprs_reversed(l: List<Expr>, onto: List<Expr>)
    requires
        exprs_distinct(l),
        exprs_distinct(onto),
        forall|x: u64| !(#[trigger] exprs_have(l, x) && #[trigger] exprs_have(onto, x)),
    ensures
        exprs_distinct(l.reversed_onto(onto)),
        forall|x: u64| #[trigger] exprs_have(l.reversed_onto(onto), x) <==> exprs_have(l, x) || exprs_have(onto, x),
    decreases l,
{
    match l {
        List::Nil => {},
        List::Cons(first, rest) => {
            let next = List::Cons(first, Box::new(onto));
            assert forall|x: u64| !(#[trigger] exprs_have(*rest, x) && #[trigger] exprs_have(next, x)) by {
                if exprs_have(*rest, x) {
                    assert(exprs_have(l, x));
                    assert(!exprs_have(onto, x));
                    assert(!expr_has(*first, x));
                }
            }
            assert forall|x: u64| !(#[trigger] expr_has(*first, x) && #[trigger] exprs_have(onto, x)) by {
                if expr_has(*first, x) {
                    assert(exprs_have(l, x));
                }
            }
            lemma_exprs_reversed(*rest, next);
            assert forall|x: u64| #[trigger]
                exprs_have(l.reversed_onto(onto), x) <==> exprs_have(l, x) || exprs_have(onto, x) by {
                assert(exprs_have(next, x) <==> expr_has(*first, x) || exprs_have(onto, x));
            }
        },
    }
}

proof fn lemma_stmts_reversed(l: List<Stmt>, onto: List<Stmt>)
    requires
        stmts_distinct(l),
        stmts_distinct(onto),
        forall|x: u64| !(#[trigger] stmts_have(l, x) && #[trigger] stmts_have(onto, x)),
    ensures
        stmts_distinct(l.reversed_onto(onto)),
        forall|x: u64| #[trigger] stmts_have(l.reversed_onto(onto), x) <==> stmts_have(l, x) || stmts_have(onto, x),
    decreases l,
{
    match l {
        List::Nil => {},
        List::Cons(first, rest) => {
            let next = List::Cons(first, Box::new(onto));
            assert forall|x: u64| !(#[trigger] stmts_have(*rest, x) && #[trigger] stmts_have(next, x)) by {
                if stmts_have(*rest, x) {
                    assert(stmts_have(l, x));
                    assert(!stmts_have(onto, x));
                    assert(!stmt_has(*first, x));
                }
            }
            assert forall|x: u64| !(#[trigger] stmt_has(*first, x) && #[trigger] stmts_have(onto, x)) by {
                if stmt_has(*first, x) {
                    assert(stmts_have(l, x));
                }
            }
            lemma_stmts_reversed(*rest, next);
            assert forall|x: u64| #[trigger]
                stmts_have(l.reversed_onto(onto), x) <==> stmts_have(l, x) || stmts_have(onto, x) by {
                assert(stmts_have(next, x) <==> stmt_has(*first, x) || stmts_have(onto, x));
            }
        },
    }
}

proof fn lemma_funcs_reversed(l: List<Rc<Func>>, onto: List<Rc<Func>>)
    requires
        funcs_distinct(l),
        funcs_distinct(onto),
        forall|x: u64| !(#[trigger] funcs_have(l, x) && #[trigger] funcs_have(onto, x)),
    ensures
        funcs_distinct(l.reversed_onto(onto)),
        forall|x: u64| #[trigger] funcs_have(l.reversed_onto(onto), x) <==> funcs_have(l, x) || funcs_have(onto, x),
    decreases l,
{
    match l {
        List::Nil => {},
        List::Cons(first, rest) => {
            let next = List::Cons(first, Box::new(onto));
            assert forall|x: u64| !(#[trigger] funcs_have(*rest, x) && #[trigger] funcs_have(next, x)) by {
                if funcs_have(*rest, x) {
                    assert(funcs_have(l, x));
                    assert(!funcs_have(onto, x));
                    assert(!func_has(*first, x));
                }
            }
            assert forall|x: u64| !(#[trigger] func_has(*first, x) && #[trigger] funcs_have(onto, x)) by {
                if func_has(*first, x) {
                    assert(funcs_have(l, x));
                }
            }
            lemma_funcs_reversed(*rest, next);
            assert forall|x: u64| #[trigger]
                funcs_have(l.reversed_onto(onto), x) <==> funcs_have(l, x) || funcs_have(onto, x) by {
                assert(funcs_have(next, x) <==> func_has(*first, x) || funcs_have(onto, x));
            }
        },
    }
}

/// A list read backwards is numbered as the list is.
proof fn lemma_exprs_numbered_reversed(l: List<Expr>, lo: int, hi: int)
    requires
        exprs_numbered(l, lo, hi),
    ensures
        exprs_numbered(l.reversed(), lo, hi),
{
    reveal(exprs_numbered);
    lemma_exprs_reversed(l, List::Nil);
}

proof fn lemma_stmts_numbered_reversed(l: List<Stmt>, lo: int, hi: int)
    requires
        stmts_numbered(l, lo, hi),
    ensures
        stmts_numbered(l.reversed(), lo, hi),
{
    reveal(stmts_numbered);
    lemma_stmts_reversed(l, List::Nil);
}

proof fn lemma_funcs_numbered_reversed(l: List<Rc<Func>>, lo: int, hi: int)
    requires
        funcs_numbered(l, lo, hi),
    ensures
        funcs_numbered(l.reversed(), lo, hi),
{
    reveal(funcs_numbered);
    lemma_funcs_reversed(l, List::Nil);
}

/// An expression without parts, which bears `id`.
pub open spec fn is_leaf(e: Expr, id: u64) -> bool {
    match e {
        Expr::Literal(l) => l.id == id,
        Expr::Var(v) => v.id == id,
        Expr::This(t) => t.id == id,
        Expr::Super(s) => s.id == id,
        _ => false,
    }
}

/// An expression of one part, which bears `id`.
pub open spec fn is_node_of(e: Expr, id: u64, part: Expr) -> bool {
    match e {
        Expr::Grouping(g) => g.id == id && *g.expr == part,
        Expr::Unary(u) => u.id == id && *u.right == part,
        Expr::Assign(a) => a.id == id && *a.value == part,
        Expr::Get(g) => g.id == id && *g.object == part,
        _ => false,
    }
}

/// An expression of two parts, which bears `id`.
pub open spec fn is_node_of_two(e: Expr, id: u64, first: Expr, second: Expr) -> bool {
    match e {
        Expr::Binary(b) => b.id == id && *b.left == first && *b.right == second,
        Expr::Logical(b) => b.id == id && *b.left == first && *b.right == second,
        Expr::SetField(s) => s.id == id && *s.object == first && *s.value == second,
        _ => false,
    }
}

proof fn lemma_leaf(e: Expr, id: u64, lo: int)
    requires
        is_leaf(e, id),
        lo <= id,
    ensures
        expr_numbered(e, lo, id + 1),
{
    reveal(expr_numbered);
}

proof fn lemma_node(e: Expr, id: u64, part: Expr, lo: int, hi: int)
    requires
        is_node_of(e, id, part),
        expr_numbered(part, lo, hi),
        lo <= id,
        hi <= id,
    ensures
        expr_numbered(e, lo, id + 1),
{
    reveal(expr_numbered);
    assert forall|x: u64| #[trigger] expr_has(e, x) implies lo <= x < id + 1 by {
        match e {
            Expr::Grouping(g) => {
                assert(x == id || expr_has(*g.expr, x));
            },
            Expr::Unary(u) => {
                assert(x == id || expr_has(*u.right, x));
            },
            Expr::Assign(a) => {
                assert(x == id || expr_has(*a.value, x));
            },
            Expr::Get(g) => {
                assert(x == id || expr_has(*g.object, x));
            },
            _ => {},
        }
    }
}

proof fn lemma_node_of_two(e: Expr, id: u64, first: Expr, second: Expr, lo: int, mid: int, hi: int)
    requires
        is_node_of_two(e, id, first, second),
        expr_numbered(first, lo, mid),
        expr_numbered(second, mid, hi),
        lo <= mid <= hi,
        hi <= id,
    ensures
        expr_numbered(e, lo, id + 1),
{
    reveal(expr_numbered);
    assert(apart(first, second)) by {
        assert forall|x: u64| !(#[trigger] expr_has(first, x) && #[trigger] expr_has(second, x)) by {}
    }
    assert forall|x: u64| #[trigger] expr_has(e, x) implies lo <= x < id + 1 by {
        match e {
            Expr::Binary(b) => {
                assert(x == id || expr_has(*b.left, x) || expr_has(*b.right, x));
            },
            Expr::Logical(b) => {
                assert(x == id || expr_has(*b.left, x) || expr_has(*b.right, x));
            },
            Expr::SetField(f) => {
                assert(x == id || expr_has(*f.object, x) || expr_has(*f.value, x));
            },
            _ => {},
        }
    }
}

proof fn lemma_call_node(e: Expr, lo: int, mid: int, hi: int)
    requires
        e matches Expr::Call(c) && expr_numbered(*c.callee, lo, mid) && exprs_numbered(c.args, mid, hi) && hi
            <= c.id,
        lo <= mid <= hi,
    ensures
        e matches Expr::Call(c) && expr_numbered(e, lo, c.id + 1),
{
    reveal(expr_numbered);
    reveal(exprs_numbered);
    match e {
        Expr::Call(c) => {
            assert forall|x: u64| !(#[trigger] expr_has(*c.callee, x) && #[trigger] exprs_have(c.args, x)) by {}
            assert forall|x: u64| #[trigger] expr_has(e, x) implies lo <= x < c.id + 1 by {
                if x != c.id {
                    assert(expr_has(*c.callee, x) || exprs_have(c.args, x));
                }
            }
        },
        _ => {},
    }
}

/// The object of a property access is numbered as the access is.
proof fn lemma_object_of(e: Expr, lo: int, hi: int)
    requires
        e is Get,
        expr_numbered(e, lo, hi),
    ensures
        e matches Expr::Get(g) && expr_numbered(*g.object, lo, hi),
{
    reveal(expr_numbered);
    match e {
        Expr::Get(g) => {
            assert forall|x: u64| #[trigger] expr_has(*g.object, x) implies lo <= x < hi by {
                assert(expr_has(e, x));
            }
        },
        _ => {},
    }
}

proof fn lemma_widen(e: Expr, lo: int, hi: int, lower: int, higher: int)
    requires
        expr_numbered(e, lo, hi),
        lower <= lo,
        hi <= higher,
    ensures
        expr_numbered(e, lower, higher),
{
    reveal(expr_numbered);
}

proof fn lemma_widen_stmt(s: Stmt, lo: int, hi: int, lower: int, higher: int)
    requires
        stmt_numbered(s, lo, hi),
        lower <= lo,
        hi <= higher,
    ensures
        stmt_numbered(s, lower, higher),
{
    reveal(stmt_numbered);
}

proof fn lemma_no_exprs(lo: int, hi: int)
    ensures
        exprs_numbered(List::Nil, lo, hi),
        stmts_numbered(List::Nil, lo, hi),
        funcs_numbered(List::Nil, lo, hi),
{
    reveal(exprs_numbered);
    reveal(stmts_numbered);
    reveal(funcs_numbered);
}

proof fn lemma_more_exprs(first: Expr, rest: List<Expr>, lo: int, mid: int, hi: int)
    requires
        exprs_numbered(rest, lo, mid),
        expr_numbered(first, mid, hi),
        lo <= mid <= hi,
    ensures
        exprs_numbered(List::Cons(Box::new(first), Box::new(rest)), lo, hi),
{
    reveal(expr_numbered);
    reveal(exprs_numbered);
    let l = List::Cons(Box::new(first), Box::new(rest));
    assert forall|x: u64| !(#[trigger] expr_has(first, x) && #[trigger] exprs_have(rest, x)) by {}
    assert forall|x: u64| #[trigger] exprs_have(l, x) implies lo <= x < hi by {
        assert(expr_has(first, x) || exprs_have(rest, x));
    }
}

proof fn lemma_more_stmts(first: Stmt, rest: List<Stmt>, lo: int, mid: int, hi: int)
    requires
        stmts_numbered(rest, lo, mid),
        stmt_numbered(first, mid, hi),
        lo <= mid <= hi,
    ensures
        stmts_numbered(List::Cons(Box::new(first), Box::new(rest)), lo, hi),
{
    reveal(stmt_numbered);
    reveal(stmts_numbered);
    let l = List::Cons(Box::new(first), Box::new(rest));
    assert forall|x: u64| !(#[trigger] stmt_has(first, x) && #[trigger] stmts_have(rest, x)) by {}
    assert forall|x: u64| #[trigger] stmts_have(l, x) implies lo <= x < hi by {
        assert(stmt_has(first, x) || stmts_have(rest, x));
    }
}

/// Two statements, the first numbered before the second.
proof fn lemma_pair(first: Stmt, second: Stmt, lo: int, mid: int, hi: int)
    requires
        stmt_numbered(first, lo, mid),
        stmt_numbered(second, mid, hi),
        lo <= mid <= hi,
    ensures
        stmts_numbered(List::pair(first, second), lo, hi),
{
    reveal_with_fuel(stmts_have, 3);
    reveal_with_fuel(stmts_distinct, 3);
    reveal(stmt_numbered);
    reveal(stmts_numbered);
    let tail = List::Cons(Box::new(second), Box::new(List::Nil));
    let l = List::pair(first, second);
    assert forall|x: u64| #[trigger] stmts_have(tail, x) implies stmt_has(second, x) by {}
    assert forall|x: u64| !(#[trigger] stmt_has(first, x) && #[trigger] stmts_have(tail, x)) by {}
    assert forall|x: u64| #[trigger] stmts_have(l, x) implies lo <= x < hi by {
        assert(stmt_has(first, x) || stmts_have(tail, x));
    }
}

/// Two statements, the second numbered before the first.
proof fn lemma_pair_back(first: Stmt, second: Stmt, lo: int, mid: int, hi: int)
    requires
        stmt_numbered(second, lo, mid),
        stmt_numbered(first, mid, hi),
        lo <= mid <= hi,
    ensures
        stmts_numbered(List::pair(first, second), lo, hi),
{
    reveal_with_fuel(stmts_have, 3);
    reveal_with_fuel(stmts_distinct, 3);
    reveal(stmt_numbered);
    reveal(stmts_numbered);
    let tail = List::Cons(Box::new(second), Box::new(List::Nil));
    let l = List::pair(first, second);
    assert forall|x: u64| #[trigger] stmts_have(tail, x) implies stmt_has(second, x) by {}
    assert forall|x: u64| !(#[trigger] stmt_has(first, x) && #[trigger] stmts_have(tail, x)) by {}
    assert forall|x: u64| #[trigger] stmts_have(l, x) implies lo <= x < hi by {
        assert(stmt_has(first, x) || stmts_have(tail, x));
    }
}

proof fn lemma_more_funcs(first: Rc<Func>, rest: List<Rc<Func>>, lo: int, mid: int, hi: int)
    requires
        funcs_numbered(rest, lo, mid),
        func_numbered(first, mid, hi),
        lo <= mid <= hi,
    ensures
        funcs_numbered(List::Cons(Box::new(first), Box::new(rest)), lo, hi),
{
    reveal(func_numbered);
    reveal(funcs_numbered);
    let l = List::Cons(Box::new(first), Box::new(rest));
    assert forall|x: u64| !(#[trigger] func_has(first, x) && #[trigger] funcs_have(rest, x)) by {}
    assert forall|x: u64| #[trigger] funcs_have(l, x) implies lo <= x < hi by {
        assert(func_has(first, x) || funcs_have(rest, x));
    }
}

/// A statement that holds one expression and nothing else.
pub open spec fn holds_expr(s: Stmt, e: Expr) -> bool {
    match s {
        Stmt::StmtExpr(st) => st.expr == e,
        Stmt::Print(st) => st.expr == e,
        Stmt::Let(st) => st.initializer == Some(e),
        Stmt::Return(st) => st.value == Some(e),
        _ => false,
    }
}

/// A statement that holds no expression.
pub open spec fn holds_nothing(s: Stmt) -> bool {
    match s {
        Stmt::Let(st) => st.initializer is None,
        Stmt::Return(st) => st.value is None,
        _ => false,
    }
}

proof fn lemma_stmt_of_expr(s: Stmt, e: Expr, lo: int, hi: int)
    requires
        holds_expr(s, e),
        expr_numbered(e, lo, hi),
    ensures
        stmt_numbered(s, lo, hi),
{
    reveal(expr_numbered);
    reveal(stmt_numbered);
    assert forall|x: u64| #[trigger] stmt_has(s, x) implies lo <= x < hi by {
        assert(expr_has(e, x));
    }
}

proof fn lemma_stmt_of_nothing(s: Stmt, lo: int, hi: int)
    requires
        holds_nothing(s),
    ensures
        stmt_numbered(s, lo, hi),
{
    reveal(stmt_numbered);
}

proof fn lemma_block_node(stmts: List<Stmt>, lo: int, hi: int)
    requires
        stmts_numbered(stmts, lo, hi),
    ensures
        stmt_numbered(Stmt::Block(crate::ast::stmt::Block { stmts }), lo, hi),
{
    reveal(stmt_numbered);
    reveal(stmts_numbered);
    let s = Stmt::Block(crate::ast::stmt::Block { stmts });
    assert forall|x: u64| #[trigger] stmt_has(s, x) implies lo <= x < hi by {
        assert(stmts_have(stmts, x));
    }
}

proof fn lemma_func_node(f: Func, lo: int, hi: int)
    requires
        stmts_numbered(f.body, lo, hi),
    ensures
        func_numbered(held(f), lo, hi),
        stmt_numbered(Stmt::Func(held(f)), lo, hi),
{
    reveal(stmt_numbered);
    reveal(stmts_numbered);
    reveal(func_numbered);
    assert(held(f).body == f.body);
    assert(func_distinct(held(f)));
    assert(stmt_distinct(Stmt::Func(held(f))));
    assert forall|x: u64| #[trigger] func_has(held(f), x) implies lo <= x < hi by {
        assert(stmts_have(f.body, x));
    }
    assert forall|x: u64| #[trigger] stmt_has(Stmt::Func(held(f)), x) implies lo <= x < hi by {
        assert(func_has(held(f), x));
    }
}

proof fn lemma_while_node(s: Stmt, lo: int, mid: int, hi: int)
    requires
        s matches Stmt::While(w) && expr_numbered(w.condition, lo, mid) && stmt_numbered(*w.body, mid, hi),
        lo <= mid <= hi,
    ensures
        stmt_numbered(s, lo, hi),
{
    reveal(expr_numbered);
    reveal(stmt_numbered);
    match s {
        Stmt::While(w) => {
            assert forall|x: u64| !(#[trigger] expr_has(w.condition, x) && #[trigger] stmt_has(*w.body, x)) by {}
            assert forall|x: u64| #[trigger] stmt_has(s, x) implies lo <= x < hi by {
                assert(expr_has(w.condition, x) || stmt_has(*w.body, x));
            }
        },
        _ => {},
    }
}

proof fn lemma_if_node(s: Stmt, lo: int, a: int, b: int, hi: int)
    requires
        s matches Stmt::If(i) && expr_numbered(i.condition, lo, a) && stmt_numbered(*i.body, a, b) && (
        i.else_body matches Some(other) ==> stmt_numbered(*other, b, hi)),
        lo <= a <= b <= hi,
    ensures
        stmt_numbered(s, lo, hi),
{
    reveal(expr_numbered);
    reveal(stmt_numbered);
    match s {
        Stmt::If(i) => {
            assert forall|x: u64| !(#[trigger] expr_has(i.condition, x) && #[trigger] stmt_has(*i.body, x)) by {}
            match i.else_body {
                Some(other) => {
                    assert forall|x: u64|
                        !(#[trigger] stmt_has(*other, x) && (#[trigger] expr_has(i.condition, x) || stmt_has(
                            *i.body,
                            x,
                        ))) by {}
                    assert forall|x: u64| !(#[trigger] stmt_has(*other, x) && #[trigger] stmt_has(*i.body, x)) by {}
                    assert forall|x: u64| #[trigger] stmt_has(s, x) implies lo <= x < hi by {
                        assert(expr_has(i.condition, x) || stmt_has(*i.body, x) || stmt_has(*other, x));
                    }
                },
                None => {
                    assert forall|x: u64| #[trigger] stmt_has(s, x) implies lo <= x < hi by {
                        assert(expr_has(i.condition, x) || stmt_has(*i.body, x));
                    }
                },
            }
        },
        _ => {},
    }
}

proof fn lemma_class_node(s: Stmt, lo: int, mid: int, hi: int)
    requires
        s matches Stmt::Class(c) && funcs_numbered(c.methods, mid, hi) && (c.superclass matches Some(v) ==> lo
            <= v.id < mid),
        lo <= mid <= hi,
    ensures
        stmt_numbered(s, lo, hi),
{
    reveal(stmt_numbered);
    reveal(funcs_numbered);
    match s {
        Stmt::Class(c) => {
            assert forall|x: u64| #[trigger] stmt_has(s, x) implies lo <= x < hi by {
                if !funcs_have(c.methods, x) {
                    assert(c.superclass matches Some(v) && v.id == x);
                }
            }
        },
        _ => {},
    }
}

/// The loop that a `for` statement stands for is numbered as its parts are.
proof fn lemma_for_loop(
    keyword: Rc<Token>,
    init: Option<Stmt>,
    cond: Expr,
    inc: Option<Expr>,
    body: Stmt,
    lo: int,
    a: int,
    b: int,
    c: int,
    hi: int,
)
    requires
        lo <= a <= b <= c <= hi,
        option_stmt_numbered(init, lo, a),
        expr_numbered(cond, a, b),
        option_numbered(inc, b, c),
        stmt_numbered(body, c, hi),
    ensures
        stmt_numbered(for_loop(keyword, init, cond, inc, body), lo, hi),
{
    let stepped = match inc {
        Some(e) => Stmt::Block(
            crate::ast::stmt::Block {
                stmts: List::pair(body, Stmt::StmtExpr(crate::ast::stmt::StmtExpr { expr: e })),
            },
        ),
        None => body,
    };
    match inc {
        Some(e) => {
            let last = Stmt::StmtExpr(crate::ast::stmt::StmtExpr { expr: e });
            lemma_stmt_of_expr(last, e, b, c);
            lemma_pair_back(body, last, b, c, hi);
            lemma_block_node(List::pair(body, last), b, hi);
        },
        None => {
            lemma_widen_stmt(body, c, hi, b, hi);
        },
    }
    let repeated = Stmt::While(
        crate::ast::stmt::While { keyword, condition: cond, body: Box::new(stepped) },
    );
    lemma_while_node(repeated, a, b, hi);
    match init {
        Some(s) => {
            lemma_pair(s, repeated, lo, a, hi);
            lemma_block_node(List::pair(s, repeated), lo, hi);
        },
        None => {
            lemma_widen_stmt(repeated, a, hi, lo, hi);
        },
    }
}

/// A program with one more statement, numbered behind the others.
proof fn lemma_more_program(stmts: Seq<Stmt>, s: Stmt, lo: int, mid: int, hi: int)
    requires
        program_numbered(stmts, lo, mid),
        stmt_numbered(s, mid, hi),
        lo <= mid <= hi,
    ensures
        program_numbered(stmts.push(s), lo, hi),
{
    reveal(stmt_numbered);
    reveal(program_numbered);
    let more = stmts.push(s);
    assert forall|i: int| 0 <= i < more.len() implies #[trigger] stmt_distinct(more[i]) by {
        if i < stmts.len() {
            assert(more[i] == stmts[i]);
        }
    }
    assert forall|i: int, x: u64| 0 <= i < more.len() && #[trigger] stmt_has(more[i], x) implies lo <= x
        < hi by {
        if i < stmts.len() {
            assert(more[i] == stmts[i]);
        }
    }
    assert forall|i: int, j: int, x: u64| 0 <= i < j < more.len() implies !(#[trigger] stmt_has(more[i], x)
        && #[trigger] stmt_has(more[j], x)) by {
        assert(more[i] == stmts[i]);
        if j < stmts.len() {
            assert(more[j] == stmts[j]);
        }
    }
}

proof fn lemma_widen_program(stmts: Seq<Stmt>, lo: int, hi: int, higher: int)
    requires
        program_numbered(stmts, lo, hi),
        hi <= higher,
    ensures
        program_numbered(stmts, lo, higher),
{
    reveal(program_numbered);
}

proof fn lemma_params_spent(ts: Seq<Rc<Token>>, c: Cursor, found: List<Rc<Token>>, count: int)
    requires
        on(ts, c),
    ensures
        spent(ts, c, params_rest(ts, c, found, count)),
        params_rest(ts, c, found, count).at.next_id == c.next_id,
    decreases ts.len() - c.curr,
{
    if !check(ts, c, TokenType::CloseParen) && count < 255 && check(ts, c, TokenType::Identifier) && check(
        ts,
        moved(c),
        TokenType::Comma,
    ) {
        lemma_params_spent(
            ts,
            moved(moved(c)),
            List::Cons(Box::new(ts[c.curr]), Box::new(found)),
            count + 1,
        );
    }
}

/// What holds of the outcome of parsing an expression from `c`, with the
/// identifiers from `lo` on.
pub open spec fn expr_parsed(ts: Seq<Rc<Token>>, c: Cursor, p: Parsed<Expr>, lo: int) -> bool {
    spent(ts, c, p) && (p.result matches Ok(e) ==> expr_numbered(e, lo, p.at.next_id as int))
}

/// What holds of the outcome of parsing a statement from `c`, with the
/// identifiers from `lo` on.
pub open spec fn stmt_parsed(ts: Seq<Rc<Token>>, c: Cursor, p: Parsed<Stmt>, lo: int) -> bool {
    spent(ts, c, p) && (p.result matches Ok(s) ==> stmt_numbered(s, lo, p.at.next_id as int))
}

proof fn lemma_primary(ts: Seq<Rc<Token>>, c: Cursor)
    requires
        budget(ts, c),
    ensures
        expr_parsed(ts, c, primary(ts, c), c.next_id as int),
    decreases ts.len() - c.curr, 10int, 0int,
{
    let p = primary(ts, c);
    let token_type = ts[c.curr].token_type;
    if token_type == TokenType::OpenParen {
        lemma_expression(ts, moved(c));
        let inner = expression(ts, moved(c));
        let c2 = after(ts, moved(c), inner);
        if inner.result is Ok && check(ts, c2, TokenType::CloseParen) {
            lemma_node(got(p), c2.next_id, got(inner), c.next_id as int, c2.next_id as int);
        }
    } else if p.result is Ok {
        lemma_leaf(got(p), c.next_id, c.next_id as int);
    }
}

proof fn lemma_call(ts: Seq<Rc<Token>>, c: Cursor)
    requires
        budget(ts, c),
    ensures
        expr_parsed(ts, c, call(ts, c), c.next_id as int),
    decreases ts.len() - c.curr, 12int, 0int,
{
    lemma_primary(ts, c);
    let callee = primary(ts, c);
    if callee.result is Ok {
        lemma_call_rest(ts, after(ts, c, callee), got(callee), c.next_id as int);
    }
}

proof fn lemma_call_rest(ts: Seq<Rc<Token>>, c: Cursor, expr: Expr, lo: int)
    requires
        budget(ts, c),
        lo <= c.next_id,
        expr_numbered(expr, lo, c.next_id as int),
    ensures
        expr_parsed(ts, c, call_rest(ts, c, expr), lo),
    decreases ts.len() - c.curr, 11int, 0int,
{
    if check(ts, c, TokenType::OpenParen) {
        lemma_no_exprs(c.next_id as int, c.next_id as int);
        lemma_finish_call_rest(ts, moved(c), expr, List::Nil, 0, lo, c.next_id as int);
        let called = finish_call_rest(ts, moved(c), expr, List::Nil, 0);
        if called.result is Ok {
            lemma_call_rest(ts, after(ts, moved(c), called), got(called), lo);
        }
    } else if check(ts, c, TokenType::Dot) {
        if check(ts, moved(c), TokenType::Identifier) {
            let get = Expr::Get(
                crate::ast::expr::Get { id: c.next_id, object: Box::new(expr), token: ts[c.curr + 1] },
            );
            lemma_node(get, c.next_id, expr, lo, c.next_id as int);
            lemma_call_rest(ts, numbered(moved(moved(c))), get, lo);
        }
    }
}

proof fn lemma_finish_call_close(ts: Seq<Rc<Token>>, c: Cursor, callee: Expr, found: List<Expr>, lo: int, mid: int)
    requires
        budget(ts, c),
        lo <= mid <= c.next_id,
        expr_numbered(callee, lo, mid),
        exprs_numbered(found, mid, c.next_id as int),
    ensures
        expr_parsed(ts, c, finish_call_close(ts, c, callee, found), lo),
{
    if check(ts, c, TokenType::CloseParen) {
        lemma_exprs_numbered_reversed(found, mid, c.next_id as int);
        lemma_call_node(got(finish_call_close(ts, c, callee, found)), lo, mid, c.next_id as int);
    }
}

proof fn lemma_finish_call_rest(
    ts: Seq<Rc<Token>>,
    c: Cursor,
    callee: Expr,
    found: List<Expr>,
    count: int,
    lo: int,
    mid: int,
)
    requires
        budget(ts, c),
        lo <= mid <= c.next_id,
        expr_numbered(callee, lo, mid),
        exprs_numbered(found, mid, c.next_id as int),
    ensures
        expr_parsed(ts, c, finish_call_rest(ts, c, callee, found, count), lo),
    decreases ts.len() - c.curr, 45int, 0int,
{
    if check(ts, c, TokenType::CloseParen) {
        lemma_finish_call_close(ts, c, callee, found, lo, mid);
    } else {
        lemma_expression(ts, c);
        let arg = expression(ts, c);
        let c1 = after(ts, c, arg);
        if arg.result is Ok && count + 1 <= 255 {
            let more = List::Cons(Box::new(got(arg)), Box::new(found));
            lemma_more_exprs(got(arg), found, mid, c.next_id as int, c1.next_id as int);
            if check(ts, c1, TokenType::Comma) {
                lemma_finish_call_rest(ts, moved(c1), callee, more, count + 1, lo, mid);
            } else {
                lemma_finish_call_close(ts, c1, callee, more, lo, mid);
            }
        }
    }
}

proof fn lemma_unary(ts: Seq<Rc<Token>>, c: Cursor)
    requires
        budget(ts, c),
    ensures
        expr_parsed(ts, c, unary(ts, c), c.next_id as int),
    decreases ts.len() - c.curr, 13int, 0int,
{
    if check(ts, c, TokenType::Bang) || check(ts, c, TokenType::Minus) {
        lemma_unary(ts, moved(c));
        let right = unary(ts, moved(c));
        let c1 = after(ts, moved(c), right);
        if right.result is Ok {
            lemma_node(got(unary(ts, c)), c1.next_id, got(right), c.next_id as int, c1.next_id as int);
        }
    } else {
        lemma_call(ts, c);
    }
}

/// The operand of an operator of `level`.
pub open spec fn operand(ts: Seq<Rc<Token>>, c: Cursor, level: int) -> Parsed<Expr> {
    if level == 0 {
        unary(ts, c)
    } else {
        binary(ts, c, level - 1)
    }
}

proof fn lemma_operand(ts: Seq<Rc<Token>>, c: Cursor, level: int)
    requires
        budget(ts, c),
        0 <= level <= 5,
    ensures
        expr_parsed(ts, c, operand(ts, c, level), c.next_id as int),
    decreases ts.len() - c.curr, 15 + 2 * level, 0int,
{
    if level == 0 {
        lemma_unary(ts, c);
    } else {
        lemma_binary(ts, c, level - 1);
    }
}

proof fn lemma_binary(ts: Seq<Rc<Token>>, c: Cursor, level: int)
    requires
        budget(ts, c),
        0 <= level <= 5,
    ensures
        expr_parsed(ts, c, binary(ts, c, level), c.next_id as int),
    decreases ts.len() - c.curr, 15 + 2 * level, 1int,
{
    lemma_operand(ts, c, level);
    let left = operand(ts, c, level);
    if left.result is Ok {
        lemma_binary_rest(ts, after(ts, c, left), level, got(left), c.next_id as int);
    }
}

proof fn lemma_binary_rest(ts: Seq<Rc<Token>>, c: Cursor, level: int, left: Expr, lo: int)
    requires
        budget(ts, c),
        0 <= level <= 5,
        lo <= c.next_id,
        expr_numbered(left, lo, c.next_id as int),
    ensures
        expr_parsed(ts, c, binary_rest(ts, c, level, left), lo),
    decreases ts.len() - c.curr, 14 + 2 * level, 1int,
{
    if !at_end(ts, c) && binds(ts[c.curr].token_type, level) {
        lemma_operand(ts, moved(c), level);
        let right = operand(ts, moved(c), level);
        let c1 = after(ts, moved(c), right);
        if right.result is Ok {
            let both = joined(level, c1.next_id, left, ts[c.curr], got(right));
            lemma_node_of_two(both, c1.next_id, left, got(right), lo, c.next_id as int, c1.next_id as int);
            lemma_binary_rest(ts, numbered(c1), level, both, lo);
        }
    }
}

proof fn lemma_assignment(ts: Seq<Rc<Token>>, c: Cursor)
    requires
        budget(ts, c),
    ensures
        expr_parsed(ts, c, assignment(ts, c), c.next_id as int),
    decreases ts.len() - c.curr, 26int, 0int,
{
    lemma_binary(ts, c, 5);
    let target = binary(ts, c, 5);
    let c1 = after(ts, c, target);
    if target.result is Ok && check(ts, c1, TokenType::Equal) {
        match got(target) {
            Expr::Var(_) => {
                lemma_assignment(ts, moved(c1));
                let value = assignment(ts, moved(c1));
                if value.result is Ok {
                    let c2 = after(ts, moved(c1), value);
                    lemma_node(got(assignment(ts, c)), c2.next_id, got(value), c1.next_id as int, c2.next_id as int);
                    lemma_widen(got(assignment(ts, c)), c1.next_id as int, c2.next_id + 1, c.next_id as int, c2.next_id + 1);
                }
            },
            Expr::Get(g) => {
                lemma_assignment(ts, moved(c1));
                let value = assignment(ts, moved(c1));
                if value.result is Ok {
                    let c2 = after(ts, moved(c1), value);
                    lemma_object_of(got(target), c.next_id as int, c1.next_id as int);
                    lemma_node_of_two(
                        got(assignment(ts, c)),
                        c2.next_id,
                        *g.object,
                        got(value),
                        c.next_id as int,
                        c1.next_id as int,
                        c2.next_id as int,
                    );
                }
            },
            _ => {},
        }
    }
}

proof fn lemma_expression(ts: Seq<Rc<Token>>, c: Cursor)
    requires
        budget(ts, c),
    ensures
        expr_parsed(ts, c, expression(ts, c), c.next_id as int),
    decreases ts.len() - c.curr, 27int, 0int,
{
    lemma_assignment(ts, c);
}

proof fn lemma_expr_stmt(ts: Seq<Rc<Token>>, c: Cursor)
    requires
        budget(ts, c),
    ensures
        stmt_parsed(ts, c, expr_stmt(ts, c), c.next_id as int),
    decreases ts.len() - c.curr, 28int, 0int,
{
    lemma_expression(ts, c);
    let e = expression(ts, c);
    let p = expr_stmt(ts, c);
    if p.result is Ok {
        lemma_stmt_of_expr(got(p), got(e), c.next_id as int, p.at.next_id as int);
    }
}

proof fn lemma_print_stmt(ts: Seq<Rc<Token>>, c: Cursor)
    requires
        budget(ts, c),
    ensures
        stmt_parsed(ts, c, print_stmt(ts, c), c.next_id as int),
    decreases ts.len() - c.curr, 50int, 0int,
{
    lemma_expression(ts, c);
    let e = expression(ts, c);
    let p = print_stmt(ts, c);
    if p.result is Ok {
        lemma_stmt_of_expr(got(p), got(e), c.next_id as int, p.at.next_id as int);
    }
}

proof fn lemma_return_stmt(ts: Seq<Rc<Token>>, c: Cursor)
    requires
        budget(ts, c),
    ensures
        stmt_parsed(ts, c, return_stmt(ts, c), c.next_id as int),
    decreases ts.len() - c.curr, 50int, 0int,
{
    let p = return_stmt(ts, c);
    if check(ts, c, TokenType::Semicolon) {
        lemma_stmt_of_nothing(got(p), c.next_id as int, p.at.next_id as int);
    } else {
        lemma_expression(ts, c);
        let e = expression(ts, c);
        if p.result is Ok {
            lemma_stmt_of_expr(got(p), got(e), c.next_id as int, p.at.next_id as int);
        }
    }
}

proof fn lemma_let_declaration(ts: Seq<Rc<Token>>, c: Cursor)
    requires
        budget(ts, c),
    ensures
        stmt_parsed(ts, c, let_declaration(ts, c), c.next_id as int),
    decreases ts.len() - c.curr, 50int, 0int,
{
    let p = let_declaration(ts, c);
    if check(ts, c, TokenType::Identifier) {
        if check(ts, moved(c), TokenType::Equal) {
            lemma_expression(ts, moved(moved(c)));
            let e = expression(ts, moved(moved(c)));
            if p.result is Ok {
                lemma_stmt_of_expr(got(p), got(e), c.next_id as int, p.at.next_id as int);
            }
        } else if p.result is Ok {
            lemma_stmt_of_nothing(got(p), c.next_id as int, p.at.next_id as int);
        }
    }
}

proof fn lemma_if_stmt(ts: Seq<Rc<Token>>, c: Cursor)
    requires
        budget(ts, c),
    ensures
        stmt_parsed(ts, c, if_stmt(ts, c), c.next_id as int),
    decreases ts.len() - c.curr, 50int, 0int,
{
    if check(ts, c, TokenType::OpenParen) {
        lemma_expression(ts, moved(c));
        let cond = expression(ts, moved(c));
        let c1 = after(ts, moved(c), cond);
        if cond.result is Ok && check(ts, c1, TokenType::CloseParen) {
            lemma_stmt(ts, moved(c1));
            let body = stmt(ts, moved(c1));
            let c2 = after(ts, moved(c1), body);
            if body.result is Ok {
                if check(ts, c2, TokenType::Else) {
                    lemma_stmt(ts, moved(c2));
                    let other = stmt(ts, moved(c2));
                    if other.result is Ok {
                        lemma_if_node(
                            got(if_stmt(ts, c)),
                            c.next_id as int,
                            c1.next_id as int,
                            c2.next_id as int,
                            other.at.next_id as int,
                        );
                    }
                } else {
                    lemma_if_node(
                        got(if_stmt(ts, c)),
                        c.next_id as int,
                        c1.next_id as int,
                        c2.next_id as int,
                        c2.next_id as int,
                    );
                }
            }
        }
    }
}

proof fn lemma_while_stmt(ts: Seq<Rc<Token>>, c: Cursor)
    requires
        budget(ts, c),
    ensures
        stmt_parsed(ts, c, while_stmt(ts, c), c.next_id as int),
    decreases ts.len() - c.curr, 50int, 0int,
{
    if check(ts, c, TokenType::OpenParen) {
        lemma_expression(ts, moved(c));
        let cond = expression(ts, moved(c));
        let c1 = after(ts, moved(c), cond);
        if cond.result is Ok && check(ts, c1, TokenType::CloseParen) {
            lemma_stmt(ts, moved(c1));
            let body = stmt(ts, moved(c1));
            if body.result is Ok {
                lemma_while_node(
                    got(while_stmt(ts, c)),
                    c.next_id as int,
                    c1.next_id as int,
                    body.at.next_id as int,
                );
            }
        }
    }
}

/// The first clause of a `for` statement, where it has one.
pub open spec fn initializer(ts: Seq<Rc<Token>>, c: Cursor) -> Parsed<Stmt> {
    if ts[c.curr].token_type == TokenType::Let {
        let_declaration(ts, moved(c))
    } else {
        expr_stmt(ts, c)
    }
}

/// The statement, if there is one, is numbered.
pub open spec fn option_stmt_numbered(o: Option<Stmt>, lo: int, hi: int) -> bool {
    o matches Some(s) ==> stmt_numbered(s, lo, hi)
}

proof fn lemma_for_stmt(ts: Seq<Rc<Token>>, c: Cursor)
    requires
        budget(ts, c),
    ensures
        stmt_parsed(ts, c, for_stmt(ts, c), c.next_id as int),
    decreases ts.len() - c.curr, 50int, 0int,
{
    if check(ts, c, TokenType::OpenParen) {
        let c1 = moved(c);
        let token_type = ts[c1.curr].token_type;
        if token_type == TokenType::Semicolon {
            lemma_for_condition(ts, moved(c1), previous(ts, c), None, c.next_id as int);
        } else {
            if token_type == TokenType::Let {
                lemma_let_declaration(ts, moved(c1));
            } else {
                lemma_expr_stmt(ts, c1);
            }
            let init = initializer(ts, c1);
            if init.result is Ok {
                lemma_for_condition(ts, after(ts, c1, init), previous(ts, c), Some(got(init)), c.next_id as int);
            }
        }
    }
}

proof fn lemma_for_condition(ts: Seq<Rc<Token>>, c: Cursor, keyword: Rc<Token>, init: Option<Stmt>, lo: int)
    requires
        budget(ts, c),
        lo <= c.next_id,
        option_stmt_numbered(init, lo, c.next_id as int),
    ensures
        stmt_parsed(ts, c, for_condition(ts, c, keyword, init), lo),
    decreases ts.len() - c.curr, 49int, 0int,
{
    if check(ts, c, TokenType::Semicolon) {
        let always = Expr::Literal(
            crate::ast::expr::Literal { id: c.next_id, value: crate::token::Value::Bool(true) },
        );
        lemma_leaf(always, c.next_id, c.next_id as int);
        lemma_for_increment(ts, moved(numbered(c)), keyword, init, always, lo, c.next_id as int);
    } else {
        lemma_expression(ts, c);
        let cond = expression(ts, c);
        let c1 = after(ts, c, cond);
        if cond.result is Ok && check(ts, c1, TokenType::Semicolon) {
            lemma_for_increment(ts, moved(c1), keyword, init, got(cond), lo, c.next_id as int);
        }
    }
}

proof fn lemma_for_increment(
    ts: Seq<Rc<Token>>,
    c: Cursor,
    keyword: Rc<Token>,
    init: Option<Stmt>,
    cond: Expr,
    lo: int,
    mid: int,
)
    requires
        budget(ts, c),
        lo <= mid <= c.next_id,
        option_stmt_numbered(init, lo, mid),
        expr_numbered(cond, mid, c.next_id as int),
    ensures
        stmt_parsed(ts, c, for_increment(ts, c, keyword, init, cond), lo),
    decreases ts.len() - c.curr, 48int, 0int,
{
    if check(ts, c, TokenType::CloseParen) {
        lemma_for_body(ts, moved(c), keyword, init, cond, None, lo, mid, c.next_id as int);
    } else {
        lemma_expression(ts, c);
        let inc = expression(ts, c);
        let c1 = after(ts, c, inc);
        if inc.result is Ok && check(ts, c1, TokenType::CloseParen) {
            lemma_for_body(ts, moved(c1), keyword, init, cond, Some(got(inc)), lo, mid, c.next_id as int);
        }
    }
}

proof fn lemma_for_body(
    ts: Seq<Rc<Token>>,
    c: Cursor,
    keyword: Rc<Token>,
    init: Option<Stmt>,
    cond: Expr,
    inc: Option<Expr>,
    lo: int,
    a: int,
    b: int,
)
    requires
        budget(ts, c),
        lo <= a <= b <= c.next_id,
        option_stmt_numbered(init, lo, a),
        expr_numbered(cond, a, b),
        option_numbered(inc, b, c.next_id as int),
    ensures
        stmt_parsed(ts, c, for_body(ts, c, keyword, init, cond, inc), lo),
    decreases ts.len() - c.curr, 47int, 0int,
{
    lemma_stmt(ts, c);
    let body = stmt(ts, c);
    if body.result is Ok {
        lemma_for_loop(keyword, init, cond, inc, got(body), lo, a, b, c.next_id as int, body.at.next_id as int);
    }
}

proof fn lemma_block(ts: Seq<Rc<Token>>, c: Cursor)
    requires
        budget(ts, c),
    ensures
        spent(ts, c, block(ts, c)),
        block(ts, c).result matches Ok(l) ==> stmts_numbered(l, c.next_id as int, block(ts, c).at.next_id as int),
    decreases ts.len() - c.curr, 41int, 0int,
{
    lemma_no_exprs(c.next_id as int, c.next_id as int);
    lemma_block_rest(ts, c, List::Nil, c.next_id as int);
}

proof fn lemma_block_rest(ts: Seq<Rc<Token>>, c: Cursor, found: List<Stmt>, lo: int)
    requires
        budget(ts, c),
        lo <= c.next_id,
        stmts_numbered(found, lo, c.next_id as int),
    ensures
        spent(ts, c, block_rest(ts, c, found)),
        block_rest(ts, c, found).result matches Ok(l) ==> stmts_numbered(
            l,
            lo,
            block_rest(ts, c, found).at.next_id as int,
        ),
    decreases ts.len() - c.curr, 40int, 0int,
{
    if !check(ts, c, TokenType::CloseBrace) && !at_end(ts, c) {
        lemma_declaration(ts, c);
        crate::ast::progress::declarations_move_on(ts, c);
        let d = declaration(ts, c);
        if d.result is Ok {
            let more = List::Cons(Box::new(got(d)), Box::new(found));
            lemma_more_stmts(got(d), found, lo, c.next_id as int, d.at.next_id as int);
            lemma_block_rest(ts, d.at, more, lo);
        }
    } else if check(ts, c, TokenType::CloseBrace) {
        lemma_stmts_numbered_reversed(found, lo, c.next_id as int);
    }
}

proof fn lemma_func_declaration(ts: Seq<Rc<Token>>, c: Cursor, kind: FuncType)
    requires
        budget(ts, c),
    ensures
        spent(ts, c, func_declaration(ts, c, kind)),
        func_declaration(ts, c, kind).result matches Ok(f) ==> func_numbered(
            held(f),
            c.next_id as int,
            func_declaration(ts, c, kind).at.next_id as int,
        ) && stmt_numbered(
            Stmt::Func(held(f)),
            c.next_id as int,
            func_declaration(ts, c, kind).at.next_id as int,
        ),
    decreases ts.len() - c.curr, 35int, 0int,
{
    if check(ts, c, TokenType::Identifier) && check(ts, moved(c), TokenType::OpenParen) {
        lemma_params_spent(ts, moved(moved(c)), List::Nil, 0);
        let params = params_rest(ts, moved(moved(c)), List::Nil, 0);
        let c1 = after(ts, moved(moved(c)), params);
        if params.result is Ok && check(ts, c1, TokenType::CloseParen) && check(
            ts,
            moved(c1),
            TokenType::OpenBrace,
        ) {
            lemma_block(ts, moved(moved(c1)));
            let body = block(ts, moved(moved(c1)));
            if body.result is Ok {
                lemma_func_node(got(func_declaration(ts, c, kind)), c.next_id as int, body.at.next_id as int);
            }
        }
    }
}

proof fn lemma_class_declaration(ts: Seq<Rc<Token>>, c: Cursor)
    requires
        budget(ts, c),
    ensures
        stmt_parsed(ts, c, class_declaration(ts, c), c.next_id as int),
    decreases ts.len() - c.curr, 50int, 0int,
{
    if check(ts, c, TokenType::Identifier) {
        let c1 = moved(c);
        if check(ts, c1, TokenType::Less) {
            if check(ts, moved(c1), TokenType::Identifier) {
                lemma_class_body(
                    ts,
                    numbered(moved(moved(c1))),
                    ts[c.curr],
                    Some(Var { id: c1.next_id, token: ts[c1.curr + 1] }),
                    c.next_id as int,
                );
            }
        } else {
            lemma_class_body(ts, c1, ts[c.curr], None, c.next_id as int);
        }
    }
}

proof fn lemma_class_body(ts: Seq<Rc<Token>>, c: Cursor, token: Rc<Token>, superclass: Option<Var>, lo: int)
    requires
        budget(ts, c),
        lo <= c.next_id,
        superclass matches Some(v) ==> lo <= v.id < c.next_id,
    ensures
        stmt_parsed(ts, c, class_body(ts, c, token, superclass), lo),
    decreases ts.len() - c.curr, 47int, 0int,
{
    if check(ts, c, TokenType::OpenBrace) {
        lemma_no_exprs(c.next_id as int, c.next_id as int);
        lemma_methods_rest(ts, moved(c), List::Nil, c.next_id as int);
        let methods = methods_rest(ts, moved(c), List::Nil);
        if methods.result is Ok {
            lemma_class_node(got(class_body(ts, c, token, superclass)), lo, c.next_id as int, methods.at.next_id as int);
        }
    }
}

proof fn lemma_methods_rest(ts: Seq<Rc<Token>>, c: Cursor, found: List<Rc<Func>>, lo: int)
    requires
        budget(ts, c),
        lo <= c.next_id,
        funcs_numbered(found, lo, c.next_id as int),
    ensures
        spent(ts, c, methods_rest(ts, c, found)),
        methods_rest(ts, c, found).result matches Ok(l) ==> funcs_numbered(
            l,
            lo,
            methods_rest(ts, c, found).at.next_id as int,
        ),
    decreases ts.len() - c.curr, 46int, 0int,
{
    if !check(ts, c, TokenType::CloseBrace) && !at_end(ts, c) {
        lemma_func_declaration(ts, c, FuncType::Method);
        crate::ast::progress::methods_move_on(ts, c);
        let f = func_declaration(ts, c, FuncType::Method);
        if f.result is Ok {
            let more = List::Cons(Box::new(held(got(f))), Box::new(found));
            lemma_more_funcs(held(got(f)), found, lo, c.next_id as int, f.at.next_id as int);
            lemma_methods_rest(ts, f.at, more, lo);
        }
    } else if check(ts, c, TokenType::CloseBrace) {
        lemma_funcs_numbered_reversed(found, lo, c.next_id as int);
    }
}

proof fn lemma_stmt(ts: Seq<Rc<Token>>, c: Cursor)
    requires
        budget(ts, c),
    ensures
        stmt_parsed(ts, c, stmt(ts, c), c.next_id as int),
    decreases ts.len() - c.curr, 29int, 0int,
{
    let token_type = ts[c.curr].token_type;
    if token_type == TokenType::If {
        lemma_if_stmt(ts, moved(c));
    } else if token_type == TokenType::Print {
        lemma_print_stmt(ts, moved(c));
    } else if token_type == TokenType::While {
        lemma_while_stmt(ts, moved(c));
    } else if token_type == TokenType::For {
        lemma_for_stmt(ts, moved(c));
    } else if token_type == TokenType::Return {
        lemma_return_stmt(ts, moved(c));
    } else if token_type == TokenType::OpenBrace {
        lemma_block(ts, moved(c));
        let b = block(ts, moved(c));
        if b.result is Ok {
            lemma_block_node(got(b), c.next_id as int, b.at.next_id as int);
        }
    } else {
        lemma_expr_stmt(ts, c);
    }
}

proof fn lemma_declaration(ts: Seq<Rc<Token>>, c: Cursor)
    requires
        budget(ts, c),
    ensures
        stmt_parsed(ts, c, declaration(ts, c), c.next_id as int),
    decreases ts.len() - c.curr, 30int, 0int,
{
    let token_type = ts[c.curr].token_type;
    if token_type == TokenType::Let {
        lemma_let_declaration(ts, moved(c));
    } else if token_type == TokenType::Fn {
        lemma_func_declaration(ts, moved(c), FuncType::Function);
    } else if token_type == TokenType::Class {
        lemma_class_declaration(ts, moved(c));
    } else {
        lemma_stmt(ts, c);
    }
}

proof fn lemma_synchronize_keeps_counter(ts: Seq<Rc<Token>>, c: Cursor)
    requires
        on(ts, c),
    ensures
        synchronize(ts, c).next_id == c.next_id,
    decreases ts.len() - c.curr,
{
    if !at_end(ts, c) && ts[c.curr].token_type != TokenType::Semicolon && !crate::ast::grammar::starts_statement(
        ts[c.curr + 1].token_type,
    ) {
        lemma_synchronize_keeps_counter(ts, moved(c));
    }
}

proof fn lemma_parse_from(ts: Seq<Rc<Token>>, c: Cursor, stmts: Seq<Stmt>, errors: Seq<ParseError>, lo: int)
    requires
        budget(ts, c),
        lo <= c.next_id,
        program_numbered(stmts, lo, c.next_id as int),
    ensures
        c.next_id <= parse_from(ts, c, stmts, errors).at.next_id,
        program_numbered(
            parse_from(ts, c, stmts, errors).stmts,
            lo,
            parse_from(ts, c, stmts, errors).at.next_id as int,
        ),
    decreases ts.len() - c.curr,
{
    if !at_end(ts, c) {
        lemma_declaration(ts, c);
        crate::ast::progress::declarations_move_on(ts, c);
        let d = declaration(ts, c);
        match d.result {
            Ok(s) => {
                lemma_more_program(stmts, s, lo, c.next_id as int, d.at.next_id as int);
                lemma_parse_from(ts, d.at, stmts.push(s), errors, lo);
            },
            Err(e) => {
                synchronizing_moves_on(ts, after(ts, c, d));
                lemma_synchronize_keeps_counter(ts, after(ts, c, d));
                let c1 = synchronize(ts, after(ts, c, d));
                lemma_widen_program(stmts, lo, c.next_id as int, c1.next_id as int);
                if c.curr < c1.curr {
                    lemma_parse_from(ts, c1, stmts, errors.push(e), lo);
                }
            },
        }
    }
}

/// Whatever the tokens, as long as the counter does not run over before
/// the tokens run out: the expressions of an expression that is parsed
/// bear identifiers of their own, no two the same, each from the counter
/// before the parse up to the counter behind it.
pub proof fn parsed_expressions_are_numbered(ts: Seq<Rc<Token>>, c: Cursor)
    requires
        budget(ts, c),
    ensures
        expression(ts, c).result matches Ok(e) ==> {
            &&& expr_distinct(e)
            &&& forall|x: u64| #[trigger] expr_has(e, x) ==> c.next_id <= x < expression(ts, c).at.next_id
        },
{
    reveal(expr_numbered);
    lemma_expression(ts, c);
}

/// Whatever the tokens, as long as the counter does not run over before
/// the tokens run out: the expressions of a parsed program bear
/// identifiers of their own, no two the same, each from the counter before
/// the parse up to the counter behind it.
pub proof fn parsed_programs_are_numbered(ts: Seq<Rc<Token>>, c: Cursor)
    requires
        budget(ts, c),
    ensures
        program_distinct(parse(ts, c).stmts),
        forall|i: int, x: u64|
            0 <= i < parse(ts, c).stmts.len() && #[trigger] stmt_has(parse(ts, c).stmts[i], x) ==> c.next_id <= x
                < parse(ts, c).at.next_id,
{
    reveal(program_numbered);
    assert(program_numbered(Seq::<Stmt>::empty(), c.next_id as int, c.next_id as int));
    lemma_parse_from(ts, c, Seq::empty(), Seq::empty(), c.next_id as int);
}

} // verus!
