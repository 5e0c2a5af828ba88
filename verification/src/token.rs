//! Tokens and the values they carry.

use crate::callables::callable::Callable;
use crate::number::double_eq;
use crate::number::equal;
use crate::text::same_bytes;
use crate::text::share;
use std::rc::Rc;
use vstd::prelude::*;

verus! {

#[derive(Debug, Clone, Copy, PartialEq, Eq, Structural)]
pub enum TokenType {
    // One char tokens
    OpenParen,
    CloseParen,
    OpenBrace,
    CloseBrace,
    Comma,
    Dot,
    Minus,
    Plus,
    Semicolon,
    Slash,
    Star,
    // Comparison tokens
    Equal,
    EqualEqual,
    Bang,
    BangEqual,
    Greater,
    GreaterEqual,
    Less,
    LessEqual,
    // Literals
    Identifier,
    String,
    Number,
    // Keywords
    If,
    Else,
    And,
    Or,
    True,
    False,
    For,
    While,
    Let,
    Fn,
    Class,
    Return,
    Nil,
    Print,
    Super,
    This,
    Eof,
}

/// A value of the language. A number is held as the bit pattern of its
/// double; an object as its place in the interpreter's heap.
#[derive(Debug)]
pub enum Value {
    String(Rc<Vec<u8>>),
    Num(u64),
    Bool(bool),
    Callable(Callable),
    LaxObject(usize),
    Nil,
}

/// The mathematical form of a `Value`.
pub enum ValueView {
    String(Seq<u8>),
    Num(u64),
    Bool(bool),
    Callable(Callable),
    LaxObject(usize),
    Nil,
}

impl View for Value {
    type V = ValueView;

    open spec fn view(&self) -> ValueView {
        match self {
            Value::String(s) => ValueView::String(s@),
            Value::Num(n) => ValueView::Num(*n),
            Value::Bool(b) => ValueView::Bool(*b),
            Value::Callable(c) => ValueView::Callable(*c),
            Value::LaxObject(o) => ValueView::LaxObject(*o),
            Value::Nil => ValueView::Nil,
        }
    }
}

/// `nil` and `false` are falsy; every other value is truthy.
pub open spec fn truthy(v: ValueView) -> bool {
    match v {
        ValueView::Bool(b) => b,
        ValueView::Nil => false,
        _ => true,
    }
}

/// Whether two callables are the same callable.
pub open spec fn same_callable(a: Callable, b: Callable) -> bool {
    match (a, b) {
        (Callable::NativeFn(x), Callable::NativeFn(y)) => x.func == y.func,
        (Callable::LaxFn(x), Callable::LaxFn(y)) => x == y,
        (Callable::LaxClass(x), Callable::LaxClass(y)) => x == y,
        _ => false,
    }
}

/// Equality of the language: by content for numbers, strings and booleans,
/// by identity for callables and objects; `nil` equals `nil`; values of
/// different kinds are never equal.
pub open spec fn values_equal(a: ValueView, b: ValueView) -> bool {
    match (a, b) {
        (ValueView::String(x), ValueView::String(y)) => x == y,
        (ValueView::Num(x), ValueView::Num(y)) => double_eq(x, y),
        (ValueView::Bool(x), ValueView::Bool(y)) => x == y,
        (ValueView::Callable(x), ValueView::Callable(y)) => same_callable(x, y),
        (ValueView::LaxObject(x), ValueView::LaxObject(y)) => x == y,
        (ValueView::Nil, ValueView::Nil) => true,
        _ => false,
    }
}

impl Value {
    /// A second handle to the same value.
    pub fn copy(&self) -> (r: Value)
        ensures
            r == *self,
    {
        match self {
            Value::String(s) => Value::String(share(s)),
            Value::Num(n) => Value::Num(*n),
            Value::Bool(b) => Value::Bool(*b),
            Value::Callable(c) => Value::Callable(*c),
            Value::LaxObject(o) => Value::LaxObject(*o),
            Value::Nil => Value::Nil,
        }
    }

    /// A string value that holds `bytes`.
    pub fn new_string(bytes: Vec<u8>) -> (r: Value)
        ensures
            r@ == ValueView::String(bytes@),
    {
        Value::String(Rc::new(bytes))
    }

    /// Whether the value counts as true in a condition.
    pub fn is_truthy(&self) -> (r: bool)
        ensures
            r == truthy(self@),
    {
        match self {
            Value::Bool(b) => *b,
            Value::Nil => false,
            _ => true,
        }
    }

    /// Whether `self == other` in the language.
    pub fn equals(&self, other: &Value) -> (r: bool)
        ensures
            r == values_equal(self@, other@),
    {
        match (self, other) {
            (Value::String(x), Value::String(y)) => same_bytes(x.as_slice(), y.as_slice()),
            (Value::Num(x), Value::Num(y)) => equal(*x, *y),
            (Value::Bool(x), Value::Bool(y)) => *x == *y,
            (Value::Callable(x), Value::Callable(y)) => match (x, y) {
                (Callable::NativeFn(f), Callable::NativeFn(g)) => f.func == g.func,
                (Callable::LaxFn(f), Callable::LaxFn(g)) => *f == *g,
                (Callable::LaxClass(f), Callable::LaxClass(g)) => *f == *g,
                _ => false,
            },
            (Value::LaxObject(x), Value::LaxObject(y)) => *x == *y,
            (Value::Nil, Value::Nil) => true,
            _ => false,
        }
    }
}

/// A token of the source text.
#[derive(Debug)]
pub struct Token {
    pub token_type: TokenType,
    pub lexeme: Rc<Vec<u8>>,
    pub literal: Value,
    pub line: usize,
}

/// The mathematical form of a `Token`.
pub struct TokenView {
    pub token_type: TokenType,
    pub lexeme: Seq<u8>,
    pub literal: ValueView,
    pub line: usize,
}

impl View for Token {
    type V = TokenView;

    open spec fn view(&self) -> TokenView {
        TokenView {
            token_type: self.token_type,
            lexeme: self.lexeme@,
            literal: self.literal@,
            line: self.line,
        }
    }
}

impl Token {
    pub fn new(token_type: TokenType, lexeme: Rc<Vec<u8>>, literal: Value, line: usize) -> (r: Token)
        ensures
            r == (Token { token_type, lexeme, literal, line }),
    {
        Token { token_type, lexeme, literal, line }
    }
}

/// The views of a list of tokens, in order.
pub open spec fn token_views(tokens: Seq<Rc<Token>>) -> Seq<TokenView> {
    Seq::new(tokens.len(), |i: int| tokens[i]@)
}

/// Equality of the language does not depend on the order of the two
/// values; and every value equals itself, but for a number that is a NaN.
pub proof fn equality_is_symmetric(a: ValueView, b: ValueView)
    ensures
        values_equal(a, b) == values_equal(b, a),
        !(a matches ValueView::Num(n) && crate::number::is_nan(n)) ==> values_equal(a, a),
{
}

} // verus!
