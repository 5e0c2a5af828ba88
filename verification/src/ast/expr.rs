//! Expressions. Each carries an identifier of its own, drawn from an
//! `IdGenerator`, by which the resolver's findings are looked up.

use crate::ast::list::List;
use crate::token::Token;
use crate::token::Value;
use std::rc::Rc;
use vstd::prelude::*;

verus! {

/// The identifier that follows `id`.
pub open spec fn following(id: u64) -> u64 {
    if id == u64::MAX {
        0
    } else {
        (id + 1) as u64
    }
}

/// A source of identifiers: each one handed out is followed by the next.
#[derive(Debug, Clone, Copy)]
pub struct IdGenerator {
    pub next_id: u64,
}

impl IdGenerator {
    pub fn new() -> (r: Self)
        ensures
            r.next_id == 0,
    {
        IdGenerator { next_id: 0 }
    }

    pub fn generate_id(&mut self) -> (r: u64)
        ensures
            r == old(self).next_id,
            final(self).next_id == following(old(self).next_id),
    {
        let id = self.next_id;
        self.next_id = if id == u64::MAX {
            0
        } else {
            id + 1
        };
        id
    }
}

#[derive(Debug)]
pub enum Expr {
    Binary(Binary),
    Grouping(Grouping),
    Literal(Literal),
    Unary(Unary),
    Var(Var),
    Assign(Assign),
    Logical(Logical),
    Call(Call),
    Get(Get),
    SetField(SetField),
    This(This),
    Super(Super),
}

#[derive(Debug)]
pub struct Binary {
    pub id: u64,
    pub left: Box<Expr>,
    pub operator: Rc<Token>,
    pub right: Box<Expr>,
}

#[derive(Debug)]
pub struct Grouping {
    pub id: u64,
    pub expr: Box<Expr>,
}

#[derive(Debug)]
pub struct Literal {
    pub id: u64,
    pub value: Value,
}

#[derive(Debug)]
pub struct Unary {
    pub id: u64,
    pub operator: Rc<Token>,
    pub right: Box<Expr>,
}

#[derive(Debug)]
pub struct Var {
    pub id: u64,
    pub token: Rc<Token>,
}

#[derive(Debug)]
pub struct Assign {
    pub id: u64,
    pub token: Rc<Token>,
    pub value: Box<Expr>,
}

#[derive(Debug)]
pub struct Logical {
    pub id: u64,
    pub left: Box<Expr>,
    pub operator: Rc<Token>,
    pub right: Box<Expr>,
}

#[derive(Debug)]
pub struct Call {
    pub id: u64,
    pub callee: Box<Expr>,
    pub paren: Rc<Token>,
    pub args: List<Expr>,
}

#[derive(Debug)]
pub struct Get {
    pub id: u64,
    pub object: Box<Expr>,
    pub token: Rc<Token>,
}

/// An assignment to a property of an object.
#[derive(Debug)]
pub struct SetField {
    pub id: u64,
    pub object: Box<Expr>,
    pub token: Rc<Token>,
    pub value: Box<Expr>,
}

#[derive(Debug)]
pub struct This {
    pub id: u64,
    pub keyword: Rc<Token>,
}

#[derive(Debug)]
pub struct Super {
    pub id: u64,
    pub keyword: Rc<Token>,
    pub method: Rc<Token>,
}

impl Expr {
    pub fn new_binary(ids: &mut IdGenerator, left: Expr, operator: Rc<Token>, right: Expr) -> (r: Self)
        ensures
            final(ids).next_id == following(old(ids).next_id),
            r == Expr::Binary(
                Binary { id: old(ids).next_id, left: Box::new(left), operator, right: Box::new(right) },
            ),
    {
        let id = ids.generate_id();
        Expr::Binary(Binary { id, left: Box::new(left), operator, right: Box::new(right) })
    }

    pub fn new_grouping(ids: &mut IdGenerator, expr: Expr) -> (r: Self)
        ensures
            final(ids).next_id == following(old(ids).next_id),
            r == Expr::Grouping(Grouping { id: old(ids).next_id, expr: Box::new(expr) }),
    {
        let id = ids.generate_id();
        Expr::Grouping(Grouping { id, expr: Box::new(expr) })
    }

    pub fn new_literal(ids: &mut IdGenerator, value: Value) -> (r: Self)
        ensures
            final(ids).next_id == following(old(ids).next_id),
            r == Expr::Literal(Literal { id: old(ids).next_id, value }),
    {
        let id = ids.generate_id();
        Expr::Literal(Literal { id, value })
    }

    pub fn new_unary(ids: &mut IdGenerator, operator: Rc<Token>, right: Expr) -> (r: Self)
        ensures
            final(ids).next_id == following(old(ids).next_id),
            r == Expr::Unary(Unary { id: old(ids).next_id, operator, right: Box::new(right) }),
    {
        let id = ids.generate_id();
        Expr::Unary(Unary { id, operator, right: Box::new(right) })
    }

    pub fn new_var(ids: &mut IdGenerator, token: Rc<Token>) -> (r: Self)
        ensures
            final(ids).next_id == following(old(ids).next_id),
            r == Expr::Var(Var { id: old(ids).next_id, token }),
    {
        let id = ids.generate_id();
        Expr::Var(Var { id, token })
    }

    pub fn new_assign(ids: &mut IdGenerator, token: Rc<Token>, value: Expr) -> (r: Self)
        ensures
            final(ids).next_id == following(old(ids).next_id),
            r == Expr::Assign(Assign { id: old(ids).next_id, token, value: Box::new(value) }),
    {
        let id = ids.generate_id();
        Expr::Assign(Assign { id, token, value: Box::new(value) })
    }

    pub fn new_logical(ids: &mut IdGenerator, left: Expr, operator: Rc<Token>, right: Expr) -> (r: Self)
        ensures
            final(ids).next_id == following(old(ids).next_id),
            r == Expr::Logical(
                Logical { id: old(ids).next_id, left: Box::new(left), operator, right: Box::new(right) },
            ),
    {
        let id = ids.generate_id();
        Expr::Logical(Logical { id, left: Box::new(left), operator, right: Box::new(right) })
    }

    pub fn new_call(ids: &mut IdGenerator, callee: Expr, paren: Rc<Token>, args: List<Expr>) -> (r: Self)
        ensures
            final(ids).next_id == following(old(ids).next_id),
            r == Expr::Call(Call { id: old(ids).next_id, callee: Box::new(callee), paren, args }),
    {
        let id = ids.generate_id();
        Expr::Call(Call { id, callee: Box::new(callee), paren, args })
    }

    pub fn new_get(ids: &mut IdGenerator, object: Expr, token: Rc<Token>) -> (r: Self)
        ensures
            final(ids).next_id == following(old(ids).next_id),
            r == Expr::Get(Get { id: old(ids).next_id, object: Box::new(object), token }),
    {
        let id = ids.generate_id();
        Expr::Get(Get { id, object: Box::new(object), token })
    }

    pub fn new_set(ids: &mut IdGenerator, object: Expr, token: Rc<Token>, value: Expr) -> (r: Self)
        ensures
            final(ids).next_id == following(old(ids).next_id),
            r == Expr::SetField(
                SetField { id: old(ids).next_id, object: Box::new(object), token, value: Box::new(value) },
            ),
    {
        let id = ids.generate_id();
        Expr::SetField(SetField { id, object: Box::new(object), token, value: Box::new(value) })
    }

    pub fn new_this(ids: &mut IdGenerator, keyword: Rc<Token>) -> (r: Self)
        ensures
            final(ids).next_id == following(old(ids).next_id),
            r == Expr::This(This { id: old(ids).next_id, keyword }),
    {
        let id = ids.generate_id();
        Expr::This(This { id, keyword })
    }

    pub fn new_super(ids: &mut IdGenerator, keyword: Rc<Token>, method: Rc<Token>) -> (r: Self)
        ensures
            final(ids).next_id == following(old(ids).next_id),
            r == Expr::Super(Super { id: old(ids).next_id, keyword, method }),
    {
        let id = ids.generate_id();
        Expr::Super(Super { id, keyword, method })
    }
}

} // verus!
