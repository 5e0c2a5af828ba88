//! One scope: the names defined in it and their values.

use crate::error::RuntimeError;
use crate::table::Table;
use crate::text::share;
use crate::token::Token;
use crate::token::Value;
use crate::token::ValueView;
use std::rc::Rc;
use vstd::prelude::*;

verus! {

/// The names of one scope and the values they are bound to.
#[derive(Debug)]
pub struct Enviroment {
    pub values: Table<Value>,
}

impl View for Enviroment {
    type V = Map<Seq<u8>, ValueView>;

    open spec fn view(&self) -> Map<Seq<u8>, ValueView> {
        self.values@
    }
}

impl Enviroment {
    /// A scope that defines nothing.
    pub fn new() -> (r: Self)
        ensures
            r@ == Map::<Seq<u8>, ValueView>::empty(),
    {
        Enviroment { values: Table::new() }
    }

    /// The value of the variable that `token` names, or the error that it
    /// is not defined here.
    pub fn get(&self, token: &Rc<Token>) -> (r: Result<Value, RuntimeError>)
        ensures
            match r {
                Ok(v) => self@.contains_key(token.lexeme@) && v@ == self@[token.lexeme@],
                Err(e) => !self@.contains_key(token.lexeme@) && e == RuntimeError::undefined(*token),
            },
    {
        match self.values.get(token.lexeme.as_slice()) {
            Some(value) => Ok(value.copy()),
            None => Err(RuntimeError::named(share(token), "Undefined variable '", "'.")),
        }
    }

    /// Binds `name` to `value` in this scope, whether or not it was bound.
    pub fn define(&mut self, name: Rc<Vec<u8>>, value: Value)
        ensures
            final(self)@ == old(self)@.insert(name@, value@),
    {
        self.values.insert(name, value);
    }

    /// Gives the variable that `token` names a new value, if this scope
    /// defines it; else the error that it does not, and nothing changes.
    pub fn assign(&mut self, token: &Rc<Token>, value: Value) -> (r: Result<(), RuntimeError>)
        ensures
            match r {
                Ok(_) => old(self)@.contains_key(token.lexeme@) && final(self)@ == old(self)@.insert(
                    token.lexeme@,
                    value@,
                ),
                Err(e) => !old(self)@.contains_key(token.lexeme@) && final(self)@ == old(self)@ && e
                    == (RuntimeError {
                    token: *token,
                    message: crate::error::Message::Named("Undefined variable '", "'"),
                }),
            },
    {
        if self.values.contains_key(token.lexeme.as_slice()) {
            self.values.insert(share(&token.lexeme), value);
            return Ok(());
        }
        Err(RuntimeError::named(share(token), "Undefined variable '", "'"))
    }
}

} // verus!
