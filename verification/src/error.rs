//! Diagnostics: what the lexer, the parser, the resolver and the evaluator
//! report, how each is rendered, and the record of what has been reported.

use crate::text::append;
use crate::text::append_decimal;
use crate::text::append_text;
use crate::text::bytes_of;
use crate::text::decimal_digits;
use crate::text::share;
use crate::text::to_bytes;
use crate::token::Token;
use crate::token::TokenType;
use std::rc::Rc;
use vstd::prelude::*;

verus! {

/// An error found while reading the source text.
#[derive(Debug)]
pub struct ScanError {
    pub line: usize,
    pub message: &'static str,
}

/// An error found while parsing, at a token.
#[derive(Debug)]
pub struct ParseError {
    pub token: Rc<Token>,
    pub message: &'static str,
}

/// The message of an error found while a program is checked or run.
#[derive(Debug, Clone, Copy)]
pub enum Message {
    /// A fixed text.
    Text(&'static str),
    /// The lexeme of the error's token, between two fixed texts.
    Named(&'static str, &'static str),
    /// A call with the wrong number of arguments: expected, then got.
    Arity(usize, usize),
}

/// An error found while a program is checked or run, at a token.
#[derive(Debug)]
pub struct RuntimeError {
    pub token: Rc<Token>,
    pub message: Message,
}

/// Any one report.
#[derive(Debug)]
pub enum Diagnostic {
    Scan(ScanError),
    Parse(ParseError),
    Runtime(RuntimeError),
}

/// `[line L] Error: <message>`
pub open spec fn scan_error_text(e: ScanError) -> Seq<u8> {
    bytes_of("[line ") + decimal_digits(e.line as nat) + bytes_of("] Error: ") + bytes_of(e.message)
}

/// `[line L] Error at end: <message>` at the end of the text, and
/// `[line L] Error at '<lexeme>': <message>` anywhere else.
pub open spec fn parse_error_text(e: ParseError) -> Seq<u8> {
    if e.token.token_type == TokenType::Eof {
        bytes_of("[line ") + decimal_digits(e.token.line as nat) + bytes_of("] Error at end: ")
            + bytes_of(e.message)
    } else {
        bytes_of("[line ") + decimal_digits(e.token.line as nat) + bytes_of("] Error at '")
            + e.token.lexeme@ + bytes_of("': ") + bytes_of(e.message)
    }
}

/// The text of a message about a token with the given lexeme.
pub open spec fn message_text(m: Message, lexeme: Seq<u8>) -> Seq<u8> {
    match m {
        Message::Text(t) => bytes_of(t),
        Message::Named(before, after) => bytes_of(before) + lexeme + bytes_of(after),
        Message::Arity(expected, got) => bytes_of("Expected ") + decimal_digits(expected as nat)
            + bytes_of(" arguments but got ") + decimal_digits(got as nat) + bytes_of("."),
    }
}

/// `[line L] <message>`
pub open spec fn runtime_error_text(e: RuntimeError) -> Seq<u8> {
    bytes_of("[line ") + decimal_digits(e.token.line as nat) + bytes_of("] ") + message_text(
        e.message,
        e.token.lexeme@,
    )
}

/// The line that a report is written as.
pub open spec fn diagnostic_text(d: Diagnostic) -> Seq<u8> {
    match d {
        Diagnostic::Scan(e) => scan_error_text(e),
        Diagnostic::Parse(e) => parse_error_text(e),
        Diagnostic::Runtime(e) => runtime_error_text(e),
    }
}

impl ScanError {
    pub fn new(line: usize, message: &'static str) -> (r: Self)
        ensures
            r == (ScanError { line, message }),
    {
        ScanError { line, message }
    }

    /// The line that this error is written as.
    pub fn to_text(&self) -> (r: Vec<u8>)
        ensures
            r@ == scan_error_text(*self),
    {
        let mut out = to_bytes("[line ");
        append_decimal(&mut out, self.line);
        append_text(&mut out, "] Error: ");
        append_text(&mut out, self.message);
        out
    }
}

impl ParseError {
    pub fn new(token: Rc<Token>, message: &'static str) -> (r: Self)
        ensures
            r == (ParseError { token, message }),
    {
        ParseError { token, message }
    }

    /// The line that this error is written as.
    pub fn to_text(&self) -> (r: Vec<u8>)
        ensures
            r@ == parse_error_text(*self),
    {
        let mut out = to_bytes("[line ");
        append_decimal(&mut out, self.token.line);
        if self.token.token_type == TokenType::Eof {
            append_text(&mut out, "] Error at end: ");
        } else {
            append_text(&mut out, "] Error at '");
            append(&mut out, self.token.lexeme.as_slice());
            append_text(&mut out, "': ");
        }
        append_text(&mut out, self.message);
        out
    }
}

impl Message {
    /// The text of the message about a token with the given lexeme.
    pub fn to_text(&self, lexeme: &[u8]) -> (r: Vec<u8>)
        ensures
            r@ == message_text(*self, lexeme@),
    {
        match self {
            Message::Text(t) => to_bytes(t),
            Message::Named(before, after) => {
                let mut out = to_bytes(before);
                append(&mut out, lexeme);
                append_text(&mut out, after);
                out
            },
            Message::Arity(expected, got) => {
                let mut out = to_bytes("Expected ");
                append_decimal(&mut out, *expected);
                append_text(&mut out, " arguments but got ");
                append_decimal(&mut out, *got);
                append_text(&mut out, ".");
                out
            },
        }
    }
}

impl RuntimeError {
    /// The error that the variable that `token` names is not defined.
    pub open spec fn undefined(token: Rc<Token>) -> RuntimeError {
        RuntimeError { token, message: Message::Named("Undefined variable '", "'.") }
    }

    /// An error with a fixed text.
    pub fn new(token: Rc<Token>, message: &'static str) -> (r: Self)
        ensures
            r == (RuntimeError { token, message: Message::Text(message) }),
    {
        RuntimeError { token, message: Message::Text(message) }
    }

    /// An error whose text names the token.
    pub fn named(token: Rc<Token>, before: &'static str, after: &'static str) -> (r: Self)
        ensures
            r == (RuntimeError { token, message: Message::Named(before, after) }),
    {
        RuntimeError { token, message: Message::Named(before, after) }
    }

    /// The error of a call that hands over `got` arguments where `expected`
    /// are taken.
    pub fn arity(token: Rc<Token>, expected: usize, got: usize) -> (r: Self)
        ensures
            r == (RuntimeError { token, message: Message::Arity(expected, got) }),
    {
        RuntimeError { token, message: Message::Arity(expected, got) }
    }

    /// The text of the message alone.
    pub fn message(&self) -> (r: Vec<u8>)
        ensures
            r@ == message_text(self.message, self.token.lexeme@),
    {
        self.message.to_text(self.token.lexeme.as_slice())
    }

    /// The line that this error is written as.
    pub fn to_text(&self) -> (r: Vec<u8>)
        ensures
            r@ == runtime_error_text(*self),
    {
        let mut out = to_bytes("[line ");
        append_decimal(&mut out, self.token.line);
        append_text(&mut out, "] ");
        let message = self.message();
        append(&mut out, message.as_slice());
        out
    }

    /// A second handle to the same error.
    pub fn copy(&self) -> (r: RuntimeError)
        ensures
            r == *self,
    {
        RuntimeError { token: share(&self.token), message: self.message }
    }
}

impl Diagnostic {
    /// The line that this report is written as.
    pub fn to_text(&self) -> (r: Vec<u8>)
        ensures
            r@ == diagnostic_text(*self),
    {
        match self {
            Diagnostic::Scan(e) => e.to_text(),
            Diagnostic::Parse(e) => e.to_text(),
            Diagnostic::Runtime(e) => e.to_text(),
        }
    }
}

/// What has been reported so far: the reports in order, and whether any of
/// them was found before the program ran, or while it ran.
#[derive(Debug)]
pub struct ErrorStatus {
    pub had_compile_error: bool,
    pub had_runtime_error: bool,
    pub reports: Vec<Diagnostic>,
}

impl ErrorStatus {
    pub fn new() -> (r: Self)
        ensures
            !r.had_compile_error,
            !r.had_runtime_error,
            r.reports@ == Seq::<Diagnostic>::empty(),
    {
        ErrorStatus { had_compile_error: false, had_runtime_error: false, reports: Vec::new() }
    }

    /// Records an error of the lexer, the parser or the resolver.
    pub fn report_compile_error(&mut self, error: Diagnostic)
        ensures
            final(self).had_compile_error,
            final(self).had_runtime_error == old(self).had_runtime_error,
            final(self).reports@ == old(self).reports@.push(error),
    {
        self.reports.push(error);
        self.had_compile_error = true;
    }

    /// Records an error of a running program.
    pub fn report_runtime_error(&mut self, error: Diagnostic)
        ensures
            final(self).had_runtime_error,
            final(self).had_compile_error == old(self).had_compile_error,
            final(self).reports@ == old(self).reports@.push(error),
    {
        self.reports.push(error);
        self.had_runtime_error = true;
    }
}

} // verus!
