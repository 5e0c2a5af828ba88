//! Statements.

use crate::ast::expr::Expr;
use crate::ast::expr::Var;
use crate::ast::list::List;
use crate::token::Token;
use std::rc::Rc;
use vstd::prelude::*;

verus! {

#[derive(Debug)]
pub enum Stmt {
    StmtExpr(StmtExpr),
    Print(Print),
    Let(Let),
    Block(Block),
    If(If),
    While(While),
    Func(Rc<Func>),
    Return(Return),
    Class(Class),
}

#[derive(Debug)]
pub struct StmtExpr {
    pub expr: Expr,
}

#[derive(Debug)]
pub struct Print {
    pub expr: Expr,
}

#[derive(Debug)]
pub struct Let {
    pub token: Rc<Token>,
    pub initializer: Option<Expr>,
}

#[derive(Debug)]
pub struct Block {
    pub stmts: List<Stmt>,
}

#[derive(Debug)]
pub struct If {
    pub condition: Expr,
    pub body: Box<Stmt>,
    pub else_body: Option<Box<Stmt>>,
}

/// A loop, with the keyword that it began with.
#[derive(Debug)]
pub struct While {
    pub keyword: Rc<Token>,
    pub condition: Expr,
    pub body: Box<Stmt>,
}

#[derive(Debug)]
pub struct Return {
    pub keyword: Rc<Token>,
    pub value: Option<Expr>,
}

/// A function declaration. Closures made from it share it.
#[derive(Debug)]
pub struct Func {
    pub token: Rc<Token>,
    pub params: List<Rc<Token>>,
    pub body: List<Stmt>,
}

/// A class declaration: its name, its methods, and the variable that names
/// its superclass, if it has one.
#[derive(Debug)]
pub struct Class {
    pub token: Rc<Token>,
    pub methods: List<Rc<Func>>,
    pub superclass: Option<Var>,
}

impl Stmt {
    pub fn new_stmt_expr(expr: Expr) -> (r: Self)
        ensures
            r == Stmt::StmtExpr(StmtExpr { expr }),
    {
        Stmt::StmtExpr(StmtExpr { expr })
    }

    pub fn new_print(expr: Expr) -> (r: Self)
        ensures
            r == Stmt::Print(Print { expr }),
    {
        Stmt::Print(Print { expr })
    }

    pub fn new_let(token: Rc<Token>, initializer: Option<Expr>) -> (r: Self)
        ensures
            r == Stmt::Let(Let { token, initializer }),
    {
        Stmt::Let(Let { token, initializer })
    }

    pub fn new_block(stmts: List<Stmt>) -> (r: Self)
        ensures
            r == Stmt::Block(Block { stmts }),
    {
        Stmt::Block(Block { stmts })
    }

    pub fn new_if(condition: Expr, body: Stmt, else_body: Option<Stmt>) -> (r: Self)
        ensures
            r == Stmt::If(
                If {
                    condition,
                    body: Box::new(body),
                    else_body: match else_body {
                        Some(s) => Some(Box::new(s)),
                        None => None,
                    },
                },
            ),
    {
        let else_body = match else_body {
            Some(s) => Some(Box::new(s)),
            None => None,
        };
        Stmt::If(If { condition, body: Box::new(body), else_body })
    }

    pub fn new_while(keyword: Rc<Token>, condition: Expr, body: Stmt) -> (r: Self)
        ensures
            r == Stmt::While(While { keyword, condition, body: Box::new(body) }),
    {
        Stmt::While(While { keyword, condition, body: Box::new(body) })
    }

    pub fn new_func(token: Rc<Token>, params: List<Rc<Token>>, body: List<Stmt>) -> (r: Self)
        ensures
            r == Stmt::Func(Rc::new(Func { token, params, body })),
    {
        Stmt::Func(Rc::new(Func { token, params, body }))
    }

    pub fn new_return(keyword: Rc<Token>, value: Option<Expr>) -> (r: Self)
        ensures
            r == Stmt::Return(Return { keyword, value }),
    {
        Stmt::Return(Return { keyword, value })
    }

    pub fn new_class(token: Rc<Token>, methods: List<Rc<Func>>, superclass: Option<Var>) -> (r: Self)
        ensures
            r == Stmt::Class(Class { token, methods, superclass }),
    {
        Stmt::Class(Class { token, methods, superclass })
    }
}

} // verus!
