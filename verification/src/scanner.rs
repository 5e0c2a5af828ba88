//! The lexer: source text to tokens.
//!
//! `scan` says, for every source text, which tokens and which errors come
//! out of it; `Scanner::scan_tokens` computes exactly that.

use crate::error::Diagnostic;
use crate::error::ErrorStatus;
use crate::error::ScanError;
use crate::number::double_of_decimal;
use crate::number::is_decimal_literal;
use crate::number::is_decimal_with_dot;
use crate::number::of_decimal;
use crate::text::bytes_of;
use crate::text::copy_range;
use crate::text::is_text;
use crate::text::to_bytes;
use crate::token::Token;
use crate::token::token_views;
use crate::token::TokenType;
use crate::token::TokenView;
use crate::token::Value;
use crate::token::ValueView;
use std::rc::Rc;
use vstd::prelude::*;

verus! {

pub open spec fn is_digit(c: u8) -> bool {
    '0' as u8 <= c <= '9' as u8
}

pub open spec fn is_alpha(c: u8) -> bool {
    ('a' as u8 <= c <= 'z' as u8) || ('A' as u8 <= c <= 'Z' as u8) || c == '_' as u8
}

pub open spec fn is_alpha_numeric(c: u8) -> bool {
    is_alpha(c) || is_digit(c)
}

/// The byte at `pos`, or 0 past the end.
pub open spec fn peek_at(src: Seq<u8>, pos: int) -> u8 {
    if 0 <= pos < src.len() {
        src[pos]
    } else {
        0
    }
}

/// The first place at or after `pos` that holds no digit.
pub open spec fn digits_end(src: Seq<u8>, pos: int) -> int
    decreases src.len() - pos,
{
    if 0 <= pos < src.len() && is_digit(src[pos]) {
        digits_end(src, pos + 1)
    } else {
        pos
    }
}

/// The first place at or after `pos` that holds no letter, digit or underscore.
pub open spec fn name_end(src: Seq<u8>, pos: int) -> int
    decreases src.len() - pos,
{
    if 0 <= pos < src.len() && is_alpha_numeric(src[pos]) {
        name_end(src, pos + 1)
    } else {
        pos
    }
}

/// The first place at or after `pos` that holds a line feed, or the end.
pub open spec fn line_end(src: Seq<u8>, pos: int) -> int
    decreases src.len() - pos,
{
    if 0 <= pos < src.len() && src[pos] != '\n' as u8 {
        line_end(src, pos + 1)
    } else {
        pos
    }
}

/// The first place at or after `pos` that holds a double quote, or the end,
/// and the line that is reached there when `pos` is on `line`.
pub open spec fn string_scan(src: Seq<u8>, pos: int, line: int) -> (int, int)
    decreases src.len() - pos,
{
    if 0 <= pos < src.len() && src[pos] != '"' as u8 {
        string_scan(
            src,
            pos + 1,
            if src[pos] == '\n' as u8 {
                line + 1
            } else {
                line
            },
        )
    } else {
        (pos, line)
    }
}

/// The keyword that a word spells, if it spells one.
pub open spec fn keyword(word: Seq<u8>) -> Option<TokenType> {
    if word == bytes_of("if") {
        Some(TokenType::If)
    } else if word == bytes_of("else") {
        Some(TokenType::Else)
    } else if word == bytes_of("and") {
        Some(TokenType::And)
    } else if word == bytes_of("or") {
        Some(TokenType::Or)
    } else if word == bytes_of("true") {
        Some(TokenType::True)
    } else if word == bytes_of("false") {
        Some(TokenType::False)
    } else if word == bytes_of("for") {
        Some(TokenType::For)
    } else if word == bytes_of("while") {
        Some(TokenType::While)
    } else if word == bytes_of("let") {
        Some(TokenType::Let)
    } else if word == bytes_of("fn") {
        Some(TokenType::Fn)
    } else if word == bytes_of("class") {
        Some(TokenType::Class)
    } else if word == bytes_of("return") {
        Some(TokenType::Return)
    } else if word == bytes_of("nil") {
        Some(TokenType::Nil)
    } else if word == bytes_of("print") {
        Some(TokenType::Print)
    } else if word == bytes_of("super") {
        Some(TokenType::Super)
    } else if word == bytes_of("this") {
        Some(TokenType::This)
    } else {
        None
    }
}

/// What one step at `start` yields: where the next step begins, the line
/// there, and the token or the error of this step, if any.
pub struct Scanned {
    pub next: int,
    pub line: int,
    pub token: Option<TokenView>,
    pub error: Option<ScanError>,
}

/// A step that yields nothing.
pub open spec fn skipped(next: int, line: int) -> Scanned {
    Scanned { next, line, token: None, error: None }
}

/// A step that yields an error.
pub open spec fn failed(next: int, line: int, message: &'static str) -> Scanned {
    Scanned { next, line, token: None, error: Some(ScanError { line: line as usize, message }) }
}

/// A step that yields the token spelled by the source from `start` to `next`.
pub open spec fn lexed(
    src: Seq<u8>,
    start: int,
    next: int,
    line: int,
    token_type: TokenType,
    literal: ValueView,
) -> Scanned {
    Scanned {
        next,
        line,
        token: Some(
            TokenView { token_type, lexeme: src.subrange(start, next), literal, line: line as usize },
        ),
        error: None,
    }
}

/// The token of one or two characters: `two` where `=` follows, `one` else.
pub open spec fn with_equal(src: Seq<u8>, start: int, line: int, one: TokenType, two: TokenType) -> Scanned {
    if peek_at(src, start + 1) == '=' as u8 {
        lexed(src, start, start + 2, line, two, ValueView::Nil)
    } else {
        lexed(src, start, start + 1, line, one, ValueView::Nil)
    }
}

/// The step that starts at a double quote.
pub open spec fn scan_string(src: Seq<u8>, start: int, line: int) -> Scanned {
    let (quote, reached) = string_scan(src, start + 1, line);
    if quote >= src.len() {
        failed(quote, reached, "Unterminated string.")
    } else {
        lexed(
            src,
            start,
            quote + 1,
            reached,
            TokenType::String,
            ValueView::String(src.subrange(start + 1, quote)),
        )
    }
}

/// Where the number that starts at `start` ends: after its digits, and after
/// a dot with digits behind it, if that follows.
pub open spec fn number_end(src: Seq<u8>, start: int) -> int {
    let whole = digits_end(src, start + 1);
    if peek_at(src, whole) == '.' as u8 && is_digit(peek_at(src, whole + 1)) {
        digits_end(src, whole + 1)
    } else {
        whole
    }
}

/// The step that starts at a digit.
pub open spec fn scan_number(src: Seq<u8>, start: int, line: int) -> Scanned {
    let end = number_end(src, start);
    match double_of_decimal(src.subrange(start, end)) {
        Some(bits) => lexed(src, start, end, line, TokenType::Number, ValueView::Num(bits)),
        None => failed(end, line, "Failed to parse number."),
    }
}

/// The step that starts at a letter or an underscore.
pub open spec fn scan_identifier(src: Seq<u8>, start: int, line: int) -> Scanned {
    let end = name_end(src, start + 1);
    let token_type = match keyword(src.subrange(start, end)) {
        Some(t) => t,
        None => TokenType::Identifier,
    };
    lexed(src, start, end, line, token_type, ValueView::Nil)
}

/// One step of the lexer at `start`, a place inside the source, on `line`.
pub open spec fn scan_token(src: Seq<u8>, start: int, line: int) -> Scanned {
    let c = peek_at(src, start);
    if c == '(' as u8 {
        lexed(src, start, start + 1, line, TokenType::OpenParen, ValueView::Nil)
    } else if c == ')' as u8 {
        lexed(src, start, start + 1, line, TokenType::CloseParen, ValueView::Nil)
    } else if c == '{' as u8 {
        lexed(src, start, start + 1, line, TokenType::OpenBrace, ValueView::Nil)
    } else if c == '}' as u8 {
        lexed(src, start, start + 1, line, TokenType::CloseBrace, ValueView::Nil)
    } else if c == ',' as u8 {
        lexed(src, start, start + 1, line, TokenType::Comma, ValueView::Nil)
    } else if c == '.' as u8 {
        lexed(src, start, start + 1, line, TokenType::Dot, ValueView::Nil)
    } else if c == '-' as u8 {
        lexed(src, start, start + 1, line, TokenType::Minus, ValueView::Nil)
    } else if c == '+' as u8 {
        lexed(src, start, start + 1, line, TokenType::Plus, ValueView::Nil)
    } else if c == ';' as u8 {
        lexed(src, start, start + 1, line, TokenType::Semicolon, ValueView::Nil)
    } else if c == '*' as u8 {
        lexed(src, start, start + 1, line, TokenType::Star, ValueView::Nil)
    } else if c == '!' as u8 {
        with_equal(src, start, line, TokenType::Bang, TokenType::BangEqual)
    } else if c == '=' as u8 {
        with_equal(src, start, line, TokenType::Equal, TokenType::EqualEqual)
    } else if c == '>' as u8 {
        with_equal(src, start, line, TokenType::Greater, TokenType::GreaterEqual)
    } else if c == '<' as u8 {
        with_equal(src, start, line, TokenType::Less, TokenType::LessEqual)
    } else if c == '/' as u8 {
        if peek_at(src, start + 1) == '/' as u8 {
            skipped(line_end(src, start + 2), line)
        } else {
            lexed(src, start, start + 1, line, TokenType::Slash, ValueView::Nil)
        }
    } else if c == ' ' as u8 || c == '\r' as u8 || c == '\t' as u8 {
        skipped(start + 1, line)
    } else if c == '\n' as u8 {
        skipped(start + 1, line + 1)
    } else if c == '"' as u8 {
        scan_string(src, start, line)
    } else if is_digit(c) {
        scan_number(src, start, line)
    } else if is_alpha(c) {
        scan_identifier(src, start, line)
    } else {
        failed(start + 1, line, "Unexpected character.")
    }
}

/// The tokens and the errors of a scan, each in the order found.
pub struct Scan {
    pub tokens: Seq<TokenView>,
    pub errors: Seq<ScanError>,
}

/// The token that ends every scan.
pub open spec fn eof_token(line: int) -> TokenView {
    TokenView {
        token_type: TokenType::Eof,
        lexeme: Seq::<u8>::empty(),
        literal: ValueView::Nil,
        line: line as usize,
    }
}

/// `found` with what a step yielded added to it.
pub open spec fn scan_with(found: Scan, step: Scanned) -> Scan {
    Scan {
        tokens: match step.token {
            Some(t) => found.tokens.push(t),
            None => found.tokens,
        },
        errors: match step.error {
            Some(e) => found.errors.push(e),
            None => found.errors,
        },
    }
}

/// The scan of the source from `pos` on, where `pos` is on `line` and
/// `found` was found before it.
pub open spec fn scan_from(src: Seq<u8>, pos: int, line: int, found: Scan) -> Scan
    decreases src.len() - pos,
{
    if 0 <= pos < src.len() {
        let step = scan_token(src, pos, line);
        if pos < step.next <= src.len() {
            scan_from(src, step.next, step.line, scan_with(found, step))
        } else {
            found
        }
    } else {
        Scan { tokens: found.tokens.push(eof_token(line)), errors: found.errors }
    }
}

/// The scan of a whole source text.
pub open spec fn scan(src: Seq<u8>) -> Scan {
    scan_from(src, 0, 1, Scan { tokens: Seq::empty(), errors: Seq::empty() })
}

/// The reports that a list of scan errors is recorded as.
pub open spec fn scan_reports(errors: Seq<ScanError>) -> Seq<Diagnostic> {
    Seq::new(errors.len(), |i: int| Diagnostic::Scan(errors[i]))
}

pub proof fn lemma_digits_end(src: Seq<u8>, pos: int)
    requires
        0 <= pos <= src.len(),
    ensures
        pos <= digits_end(src, pos) <= src.len(),
        forall|i: int| pos <= i < digits_end(src, pos) ==> is_digit(#[trigger] src[i]),
        !is_digit(peek_at(src, digits_end(src, pos))),
    decreases src.len() - pos,
{
    if pos < src.len() && is_digit(src[pos]) {
        lemma_digits_end(src, pos + 1);
    }
}

pub proof fn lemma_name_end(src: Seq<u8>, pos: int)
    requires
        0 <= pos <= src.len(),
    ensures
        pos <= name_end(src, pos) <= src.len(),
    decreases src.len() - pos,
{
    if pos < src.len() && is_alpha_numeric(src[pos]) {
        lemma_name_end(src, pos + 1);
    }
}

pub proof fn lemma_line_end(src: Seq<u8>, pos: int)
    requires
        0 <= pos <= src.len(),
    ensures
        pos <= line_end(src, pos) <= src.len(),
    decreases src.len() - pos,
{
    if pos < src.len() && src[pos] != '\n' as u8 {
        lemma_line_end(src, pos + 1);
    }
}

pub proof fn lemma_string_scan(src: Seq<u8>, pos: int, line: int)
    requires
        0 <= pos <= src.len(),
    ensures
        pos <= string_scan(src, pos, line).0 <= src.len(),
        line <= string_scan(src, pos, line).1 <= line + (string_scan(src, pos, line).0 - pos),
        forall|i: int| pos <= i < string_scan(src, pos, line).0 ==> #[trigger] src[i] != '"' as u8,
    decreases src.len() - pos,
{
    if pos < src.len() && src[pos] != '"' as u8 {
        lemma_string_scan(
            src,
            pos + 1,
            if src[pos] == '\n' as u8 {
                line + 1
            } else {
                line
            },
        );
    }
}

/// A number's text is a decimal literal.
pub proof fn lemma_number_is_decimal(src: Seq<u8>, start: int)
    requires
        0 <= start < src.len(),
        is_digit(src[start]),
    ensures
        start < number_end(src, start) <= src.len(),
        is_decimal_literal(src.subrange(start, number_end(src, start))),
{
    let whole = digits_end(src, start + 1);
    lemma_digits_end(src, start + 1);
    let end = number_end(src, start);
    let text = src.subrange(start, end);
    if peek_at(src, whole) == '.' as u8 && is_digit(peek_at(src, whole + 1)) {
        lemma_digits_end(src, whole + 1);
        let dot = whole - start;
        assert(text[dot] == 46);
        assert(whole + 1 < src.len());
        assert(is_digit(src[whole + 1]));
        assert(digits_end(src, whole + 1) > whole + 1);
        assert forall|i: int| 0 <= i < text.len() && i != dot implies 48 <= #[trigger] text[i] <= 57 by {
            assert(text[i] == src[start + i]);
            if i > dot {
                assert(is_digit(src[start + i]));
            } else if i > 0 {
                assert(is_digit(src[start + i]));
            }
        }
        assert(is_decimal_with_dot(text, dot));
    } else {
        let dot = text.len() as int;
        assert forall|i: int| 0 <= i < text.len() && i != dot implies 48 <= #[trigger] text[i] <= 57 by {
            assert(text[i] == src[start + i]);
            if i > 0 {
                assert(is_digit(src[start + i]));
            }
        }
        assert(is_decimal_with_dot(text, dot));
    }
}

/// Every step moves on, stays inside the source, and never goes back a line.
pub proof fn lemma_scan_token_moves(src: Seq<u8>, start: int, line: int)
    requires
        0 <= start < src.len(),
    ensures
        start < scan_token(src, start, line).next <= src.len(),
        line <= scan_token(src, start, line).line <= line + (scan_token(src, start, line).next - start),
        scan_token(src, start, line).token matches Some(t) ==> t.token_type != TokenType::Eof && t.line
            == scan_token(src, start, line).line as usize,
{
    let c = src[start];
    if c == '/' as u8 {
        if peek_at(src, start + 1) == '/' as u8 {
            lemma_line_end(src, start + 2);
        }
    } else if c == '"' as u8 {
        lemma_string_scan(src, start + 1, line);
    } else if is_digit(c) {
        lemma_number_is_decimal(src, start);
    } else if is_alpha(c) {
        lemma_name_end(src, start + 1);
    }
}

/// The tokens hold no end-of-file token, their lines never decrease, and
/// none lies beyond `line`.
pub open spec fn ascending_up_to(tokens: Seq<TokenView>, line: int) -> bool {
    &&& forall|i: int| 0 <= i < tokens.len() ==> (#[trigger] tokens[i]).token_type != TokenType::Eof
    &&& forall|i: int| 0 <= i < tokens.len() ==> (#[trigger] tokens[i]).line <= line
    &&& forall|i: int, j: int|
        0 <= i <= j < tokens.len() ==> (#[trigger] tokens[i]).line <= (#[trigger] tokens[j]).line
}

/// The tokens end with the one end-of-file token among them, and their lines
/// never decrease.
pub open spec fn well_shaped(tokens: Seq<TokenView>) -> bool {
    &&& tokens.len() > 0
    &&& tokens.last().token_type == TokenType::Eof
    &&& forall|i: int| 0 <= i < tokens.len() - 1 ==> (#[trigger] tokens[i]).token_type != TokenType::Eof
    &&& forall|i: int, j: int|
        0 <= i <= j < tokens.len() ==> (#[trigger] tokens[i]).line <= (#[trigger] tokens[j]).line
}

proof fn lemma_scan_from_shape(src: Seq<u8>, pos: int, line: int, found: Scan)
    requires
        src.len() < usize::MAX,
        0 <= pos <= src.len(),
        1 <= line <= pos + 1,
        ascending_up_to(found.tokens, line),
    ensures
        well_shaped(scan_from(src, pos, line, found).tokens),
    decreases src.len() - pos,
{
    if pos < src.len() {
        let step = scan_token(src, pos, line);
        lemma_scan_token_moves(src, pos, line);
        let next = scan_with(found, step);
        assert(ascending_up_to(next.tokens, step.line)) by {
            match step.token {
                Some(t) => {
                    assert(t.line == step.line);
                    assert forall|i: int| 0 <= i < next.tokens.len() implies (#[trigger] next.tokens[i]).line
                        <= step.line && next.tokens[i].token_type != TokenType::Eof by {
                        if i < found.tokens.len() {
                            assert(next.tokens[i] == found.tokens[i]);
                        }
                    }
                    assert forall|i: int, j: int| 0 <= i <= j < next.tokens.len() implies (
                    #[trigger] next.tokens[i]).line <= (#[trigger] next.tokens[j]).line by {
                        if j < found.tokens.len() {
                            assert(next.tokens[i] == found.tokens[i]);
                            assert(next.tokens[j] == found.tokens[j]);
                        }
                    }
                },
                None => {},
            }
        }
        lemma_scan_from_shape(src, step.next, step.line, next);
    } else {
        let all = found.tokens.push(eof_token(line));
        assert forall|i: int, j: int| 0 <= i <= j < all.len() implies (#[trigger] all[i]).line <= (
        #[trigger] all[j]).line by {
            if j < found.tokens.len() {
                assert(all[i] == found.tokens[i]);
                assert(all[j] == found.tokens[j]);
            } else if i < found.tokens.len() {
                assert(all[i] == found.tokens[i]);
            }
        }
        assert forall|i: int| 0 <= i < all.len() - 1 implies (#[trigger] all[i]).token_type
            != TokenType::Eof by {
            assert(all[i] == found.tokens[i]);
        }
    }
}

/// Whatever the source holds, the tokens of its scan end with the one
/// end-of-file token among them, and their line numbers never decrease from
/// one token to the next.
pub proof fn scan_ends_with_eof_and_lines_ascend(src: Seq<u8>)
    requires
        src.len() < usize::MAX,
    ensures
        well_shaped(scan(src).tokens),
{
    lemma_scan_from_shape(src, 0, 1, Scan { tokens: Seq::empty(), errors: Seq::empty() });
}

/// The UTF-8 bytes of an owned text.
pub open spec fn string_bytes(text: String) -> Seq<u8> {
    vstd::utf8::encode_utf8(text@)
}

/// The lexer's state: the source, the tokens found so far, where the token
/// under way starts, the place reached, and the line there.
pub struct Scanner {
    pub source: Vec<u8>,
    pub tokens: Vec<Rc<Token>>,
    pub start: usize,
    pub current: usize,
    pub line: usize,
}

impl Scanner {
    /// The places are in order and inside the source, and the line counts
    /// no more line feeds than bytes were passed.
    pub open spec fn wf(&self) -> bool {
        &&& self.start <= self.current <= self.source.len() < usize::MAX
        &&& 1 <= self.line <= self.current + 1
    }

    /// A lexer at the start of `source`.
    pub fn new(source: String) -> (r: Scanner)
        requires
            string_bytes(source).len() < usize::MAX,
        ensures
            r.wf(),
            r.source@ == string_bytes(source),
            r.tokens@ == Seq::<Rc<Token>>::empty(),
            r.start == 0,
            r.current == 0,
            r.line == 1,
    {
        Scanner { source: to_bytes(source.as_str()), tokens: Vec::new(), start: 0, current: 0, line: 1 }
    }

    /// Scans what is left of the source, records the errors in `status`, and
    /// hands out the tokens, the last of which is the end-of-file token.
    pub fn scan_tokens(&mut self, status: &mut ErrorStatus) -> (r: Vec<Rc<Token>>)
        requires
            old(self).wf(),
        ensures
            final(self).wf(),
            final(self).source == old(self).source,
            final(self).current == final(self).source.len(),
            final(self).tokens@ == Seq::<Rc<Token>>::empty(),
            ({
                let all = scan_from(
                    old(self).source@,
                    old(self).current as int,
                    old(self).line as int,
                    Scan { tokens: token_views(old(self).tokens@), errors: Seq::empty() },
                );
                &&& token_views(r@) == all.tokens
                &&& final(status).reports@ == old(status).reports@ + scan_reports(all.errors)
                &&& final(status).had_compile_error == (old(status).had_compile_error
                    || all.errors.len() > 0)
                &&& final(status).had_runtime_error == old(status).had_runtime_error
            }),
    {
        let ghost src = self.source@;
        let ghost mut found = Scan { tokens: token_views(self.tokens@), errors: Seq::empty() };
        proof {
            assert(old(status).reports@ + scan_reports(found.errors) =~= old(status).reports@);
        }
        while !self.is_at_end()
            invariant
                self.wf(),
                self.source == old(self).source,
                src == self.source@,
                found.tokens == token_views(self.tokens@),
                scan_from(src, self.current as int, self.line as int, found) == scan_from(
                    src,
                    old(self).current as int,
                    old(self).line as int,
                    Scan { tokens: token_views(old(self).tokens@), errors: Seq::empty() },
                ),
                status.reports@ == old(status).reports@ + scan_reports(found.errors),
                status.had_compile_error == (old(status).had_compile_error || found.errors.len() > 0),
                status.had_runtime_error == old(status).had_runtime_error,
            decreases self.source.len() - self.current,
        {
            self.start = self.current;
            let ghost step = scan_token(src, self.current as int, self.line as int);
            let ghost before = found;
            proof {
                lemma_scan_token_moves(src, self.current as int, self.line as int);
                found = scan_with(found, step);
            }
            if let Err(error) = self.scan_token() {
                status.report_compile_error(Diagnostic::Scan(error));
                proof {
                    assert(scan_reports(found.errors) =~= scan_reports(before.errors).push(
                        Diagnostic::Scan(error),
                    ));
                    assert(status.reports@ =~= old(status).reports@ + scan_reports(found.errors));
                }
            }
        }
        let end_token = Rc::new(Token::new(TokenType::Eof, Rc::new(Vec::new()), Value::Nil, self.line));
        self.tokens.push(end_token);
        proof {
            assert(token_views(self.tokens@) =~= found.tokens.push(eof_token(self.line as int)));
        }
        let mut out: Vec<Rc<Token>> = Vec::new();
        std::mem::swap(&mut self.tokens, &mut out);
        out
    }

    /// One step: the token, or nothing, or the error that starts at `start`.
    fn scan_token(&mut self) -> (r: Result<(), ScanError>)
        requires
            old(self).wf(),
            old(self).start == old(self).current,
            old(self).current < old(self).source.len(),
        ensures
            final(self).wf(),
            final(self).source == old(self).source,
            ({
                let step = scan_token(old(self).source@, old(self).current as int, old(self).line as int);
                &&& final(self).current == step.next
                &&& final(self).line == step.line
                &&& token_views(final(self).tokens@) == scan_with(
                    Scan { tokens: token_views(old(self).tokens@), errors: Seq::empty() },
                    step,
                ).tokens
                &&& r == match step.error {
                    Some(e) => Err::<(), ScanError>(e),
                    None => Ok(()),
                }
            }),
    {
        self.advance();
        let c = self.curr();
        if c == '(' as u8 {
            self.add_token(TokenType::OpenParen);
        } else if c == ')' as u8 {
            self.add_token(TokenType::CloseParen);
        } else if c == '{' as u8 {
            self.add_token(TokenType::OpenBrace);
        } else if c == '}' as u8 {
            self.add_token(TokenType::CloseBrace);
        } else if c == ',' as u8 {
            self.add_token(TokenType::Comma);
        } else if c == '.' as u8 {
            self.add_token(TokenType::Dot);
        } else if c == '-' as u8 {
            self.add_token(TokenType::Minus);
        } else if c == '+' as u8 {
            self.add_token(TokenType::Plus);
        } else if c == ';' as u8 {
            self.add_token(TokenType::Semicolon);
        } else if c == '*' as u8 {
            self.add_token(TokenType::Star);
        } else if c == '!' as u8 {
            if self.peek() == '=' as u8 {
                self.advance();
                self.add_token(TokenType::BangEqual);
            } else {
                self.add_token(TokenType::Bang);
            }
        } else if c == '=' as u8 {
            if self.peek() == '=' as u8 {
                self.advance();
                self.add_token(TokenType::EqualEqual);
            } else {
                self.add_token(TokenType::Equal);
            }
        } else if c == '>' as u8 {
            if self.peek() == '=' as u8 {
                self.advance();
                self.add_token(TokenType::GreaterEqual);
            } else {
                self.add_token(TokenType::Greater);
            }
        } else if c == '<' as u8 {
            if self.peek() == '=' as u8 {
                self.advance();
                self.add_token(TokenType::LessEqual);
            } else {
                self.add_token(TokenType::Less);
            }
        } else if c == '/' as u8 {
            if self.peek() == '/' as u8 {
                self.advance();
                self.skip_comment();
            } else {
                self.add_token(TokenType::Slash);
            }
        } else if c == ' ' as u8 || c == '\r' as u8 || c == '\t' as u8 {
        } else if c == '\n' as u8 {
            self.line += 1;
        } else if c == '"' as u8 {
            return self.tokenize_string();
        } else if Self::is_digit(c) {
            return self.tokenize_number();
        } else if Self::is_alpha(c) {
            self.tokenize_identifier();
        } else {
            return Err(ScanError::new(self.line, "Unexpected character."));
        }
        Ok(())
    }

    /// The string that starts at the quote just passed.
    fn tokenize_string(&mut self) -> (r: Result<(), ScanError>)
        requires
            old(self).wf(),
            old(self).current == old(self).start + 1,
        ensures
            final(self).wf(),
            final(self).source == old(self).source,
            ({
                let step = scan_string(old(self).source@, old(self).start as int, old(self).line as int);
                &&& final(self).current == step.next
                &&& final(self).line == step.line
                &&& token_views(final(self).tokens@) == scan_with(
                    Scan { tokens: token_views(old(self).tokens@), errors: Seq::empty() },
                    step,
                ).tokens
                &&& r == match step.error {
                    Some(e) => Err::<(), ScanError>(e),
                    None => Ok(()),
                }
            }),
    {
        let ghost src = self.source@;
        while self.peek() != '"' as u8 && !self.is_at_end()
            invariant
                self.wf(),
                self.source == old(self).source,
                src == self.source@,
                self.start == old(self).start,
                self.tokens == old(self).tokens,
                self.start < self.current,
                string_scan(src, self.current as int, self.line as int) == string_scan(
                    src,
                    old(self).current as int,
                    old(self).line as int,
                ),
            decreases self.source.len() - self.current,
        {
            let newline = self.peek() == '\n' as u8;
            self.advance();
            if newline {
                self.line += 1;
            }
        }
        if self.is_at_end() {
            return Err(ScanError::new(self.line, "Unterminated string."));
        }
        self.advance();
        let value = copy_range(&self.source, self.start + 1, self.current - 1);
        self.add_literal_token(TokenType::String, Value::new_string(value));
        Ok(())
    }

    /// The number that starts at the digit just passed.
    fn tokenize_number(&mut self) -> (r: Result<(), ScanError>)
        requires
            old(self).wf(),
            old(self).current == old(self).start + 1,
            is_digit(old(self).source@[old(self).start as int]),
        ensures
            final(self).wf(),
            final(self).source == old(self).source,
            ({
                let step = scan_number(old(self).source@, old(self).start as int, old(self).line as int);
                &&& final(self).current == step.next
                &&& final(self).line == step.line
                &&& token_views(final(self).tokens@) == scan_with(
                    Scan { tokens: token_views(old(self).tokens@), errors: Seq::empty() },
                    step,
                ).tokens
                &&& r == match step.error {
                    Some(e) => Err::<(), ScanError>(e),
                    None => Ok(()),
                }
            }),
    {
        let ghost src = self.source@;
        self.skip_digits();
        if self.peek() == '.' as u8 && Self::is_digit(self.peek_next()) {
            self.advance();
            self.skip_digits();
        }
        proof {
            lemma_number_is_decimal(src, self.start as int);
        }
        let text = copy_range(&self.source, self.start, self.current);
        match of_decimal(text.as_slice()) {
            Some(n) => {
                self.add_literal_token(TokenType::Number, Value::Num(n));
                Ok(())
            },
            None => Err(ScanError::new(self.line, "Failed to parse number.")),
        }
    }

    /// Passes the digits at the place reached.
    fn skip_digits(&mut self)
        requires
            old(self).wf(),
        ensures
            final(self).wf(),
            *final(self) == (Scanner {
                current: digits_end(old(self).source@, old(self).current as int) as usize,
                ..*old(self)
            }),
            final(self).current == digits_end(old(self).source@, old(self).current as int),
    {
        while Self::is_digit(self.peek())
            invariant
                self.wf(),
                *self == (Scanner { current: self.current, ..*old(self) }),
                digits_end(self.source@, self.current as int) == digits_end(
                    old(self).source@,
                    old(self).current as int,
                ),
            decreases self.source.len() - self.current,
        {
            self.advance();
        }
    }

    /// The word that starts at the letter just passed: a keyword or a name.
    fn tokenize_identifier(&mut self)
        requires
            old(self).wf(),
            old(self).current == old(self).start + 1,
        ensures
            final(self).wf(),
            final(self).source == old(self).source,
            ({
                let step = scan_identifier(
                    old(self).source@,
                    old(self).start as int,
                    old(self).line as int,
                );
                &&& final(self).current == step.next
                &&& final(self).line == step.line
                &&& token_views(final(self).tokens@) == scan_with(
                    Scan { tokens: token_views(old(self).tokens@), errors: Seq::empty() },
                    step,
                ).tokens
            }),
    {
        while Self::is_alpha_numeric(self.peek())
            invariant
                self.wf(),
                *self == (Scanner { current: self.current, ..*old(self) }),
                self.start < self.current,
                name_end(self.source@, self.current as int) == name_end(
                    old(self).source@,
                    old(self).current as int,
                ),
            decreases self.source.len() - self.current,
        {
            self.advance();
        }
        let text = copy_range(&self.source, self.start, self.current);
        let token_type = match Self::match_keyword(text.as_slice()) {
            Some(t) => t,
            None => TokenType::Identifier,
        };
        self.add_token(token_type);
    }

    /// The keyword that `word` spells, if it spells one.
    fn match_keyword(word: &[u8]) -> (r: Option<TokenType>)
        ensures
            r == keyword(word@),
    {
        if is_text(word, "if") {
            Some(TokenType::If)
        } else if is_text(word, "else") {
            Some(TokenType::Else)
        } else if is_text(word, "and") {
            Some(TokenType::And)
        } else if is_text(word, "or") {
            Some(TokenType::Or)
        } else if is_text(word, "true") {
            Some(TokenType::True)
        } else if is_text(word, "false") {
            Some(TokenType::False)
        } else if is_text(word, "for") {
            Some(TokenType::For)
        } else if is_text(word, "while") {
            Some(TokenType::While)
        } else if is_text(word, "let") {
            Some(TokenType::Let)
        } else if is_text(word, "fn") {
            Some(TokenType::Fn)
        } else if is_text(word, "class") {
            Some(TokenType::Class)
        } else if is_text(word, "return") {
            Some(TokenType::Return)
        } else if is_text(word, "nil") {
            Some(TokenType::Nil)
        } else if is_text(word, "print") {
            Some(TokenType::Print)
        } else if is_text(word, "super") {
            Some(TokenType::Super)
        } else if is_text(word, "this") {
            Some(TokenType::This)
        } else {
            None
        }
    }

    /// Adds the token that the source spells from `start` to the place reached.
    fn add_token(&mut self, token_type: TokenType)
        requires
            old(self).wf(),
        ensures
            final(self).wf(),
            *final(self) == (Scanner { tokens: final(self).tokens, ..*old(self) }),
            token_views(final(self).tokens@) == token_views(old(self).tokens@).push(
                TokenView {
                    token_type,
                    lexeme: old(self).source@.subrange(old(self).start as int, old(self).current as int),
                    literal: ValueView::Nil,
                    line: old(self).line,
                },
            ),
    {
        self.push_token(token_type, Value::Nil)
    }

    /// Adds the token that the source spells from `start` to the place
    /// reached, with the value that it stands for.
    fn add_literal_token(&mut self, token_type: TokenType, literal: Value)
        requires
            old(self).wf(),
        ensures
            final(self).wf(),
            *final(self) == (Scanner { tokens: final(self).tokens, ..*old(self) }),
            token_views(final(self).tokens@) == token_views(old(self).tokens@).push(
                TokenView {
                    token_type,
                    lexeme: old(self).source@.subrange(old(self).start as int, old(self).current as int),
                    literal: literal@,
                    line: old(self).line,
                },
            ),
    {
        self.push_token(token_type, literal)
    }

    fn push_token(&mut self, token_type: TokenType, literal: Value)
        requires
            old(self).wf(),
        ensures
            final(self).wf(),
            *final(self) == (Scanner { tokens: final(self).tokens, ..*old(self) }),
            token_views(final(self).tokens@) == token_views(old(self).tokens@).push(
                TokenView {
                    token_type,
                    lexeme: old(self).source@.subrange(old(self).start as int, old(self).current as int),
                    literal: literal@,
                    line: old(self).line,
                },
            ),
    {
        let text = copy_range(&self.source, self.start, self.current);
        let token = Rc::new(Token::new(token_type, Rc::new(text), literal, self.line));
        self.tokens.push(token);
        proof {
            assert(token_views(self.tokens@) =~= token_views(old(self).tokens@).push(token@));
        }
    }

    fn is_at_end(&self) -> (r: bool)
        ensures
            r == (self.current >= self.source.len()),
    {
        self.current >= self.source.len()
    }

    fn advance(&mut self)
        requires
            old(self).current < old(self).source.len(),
        ensures
            *final(self) == (Scanner { current: (old(self).current + 1) as usize, ..*old(self) }),
    {
        self.current += 1;
    }

    /// The byte just passed.
    fn curr(&self) -> (r: u8)
        requires
            0 < self.current <= self.source.len(),
        ensures
            r == self.source@[self.current - 1],
    {
        self.source[self.current - 1]
    }

    /// The byte at the place reached, or 0 at the end.
    fn peek(&self) -> (r: u8)
        ensures
            r == peek_at(self.source@, self.current as int),
    {
        if self.is_at_end() {
            return 0;
        }
        self.source[self.current]
    }

    /// The byte after the place reached, or 0 past the end.
    fn peek_next(&self) -> (r: u8)
        requires
            self.current < usize::MAX,
        ensures
            r == peek_at(self.source@, self.current + 1),
    {
        if self.current + 1 >= self.source.len() {
            return 0;
        }
        self.source[self.current + 1]
    }

    /// Passes what is left of the line.
    fn skip_comment(&mut self)
        requires
            old(self).wf(),
        ensures
            final(self).wf(),
            *final(self) == (Scanner {
                current: line_end(old(self).source@, old(self).current as int) as usize,
                ..*old(self)
            }),
            final(self).current == line_end(old(self).source@, old(self).current as int),
    {
        while self.peek() != '\n' as u8 && !self.is_at_end()
            invariant
                self.wf(),
                *self == (Scanner { current: self.current, ..*old(self) }),
                line_end(self.source@, self.current as int) == line_end(
                    old(self).source@,
                    old(self).current as int,
                ),
            decreases self.source.len() - self.current,
        {
            self.advance();
        }
    }

    fn is_digit(c: u8) -> (r: bool)
        ensures
            r == is_digit(c),
    {
        '0' as u8 <= c && c <= '9' as u8
    }

    fn is_alpha(c: u8) -> (r: bool)
        ensures
            r == is_alpha(c),
    {
        ('a' as u8 <= c && c <= 'z' as u8) || ('A' as u8 <= c && c <= 'Z' as u8) || c == '_' as u8
    }

    fn is_alpha_numeric(c: u8) -> (r: bool)
        ensures
            r == is_alpha_numeric(c),
    {
        Self::is_alpha(c) || Self::is_digit(c)
    }
}

} // verus!
