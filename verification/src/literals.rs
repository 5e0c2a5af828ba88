//! Literals read back: what `print` writes of `true`, `false` and `nil`,
//! and of a string once it is put between double quotes, the lexer and the
//! parser read as that value again.

use crate::ast::expr::Expr;
use crate::ast::grammar::Cursor;
use crate::ast::grammar::primary;
use crate::heap::HeapView;
use crate::heap::PrintedView;
use crate::scanner::eof_token;
use crate::scanner::is_alpha;
use crate::scanner::keyword;
use crate::scanner::name_end;
use crate::scanner::scan;
use crate::scanner::Scan;
use crate::scanner::scan_from;
use crate::scanner::scan_identifier;
use crate::scanner::scan_string;
use crate::scanner::scan_token;
use crate::scanner::string_scan;
use crate::text::bytes_of;
use crate::token::Token;
use crate::token::token_views;
use crate::token::TokenType;
use crate::token::TokenView;
use crate::token::ValueView;
use std::rc::Rc;
use vstd::prelude::*;

verus! {

/// The source text that denotes a value whose printed form is `printed`:
/// for a string the printed form between double quotes, for any other
/// value the printed form itself.
pub open spec fn literal_text(printed: Seq<u8>, v: ValueView) -> Seq<u8> {
    if v is String {
        seq!['"' as u8] + printed + seq!['"' as u8]
    } else {
        printed
    }
}

/// The value that a token list denotes, where it begins with a literal.
pub open spec fn literal_value(ts: Seq<Rc<Token>>, next_id: u64) -> Option<ValueView> {
    match primary(ts, Cursor { curr: 0, next_id }).result {
        Ok(Expr::Literal(literal)) => Some(literal.value@),
        _ => None,
    }
}

/// The bytes that the keywords are spelled with.
proof fn lemma_keyword_bytes()
    ensures
        bytes_of("if") == seq![105u8, 102u8],
        bytes_of("else") == seq![101u8, 108u8, 115u8, 101u8],
        bytes_of("and") == seq![97u8, 110u8, 100u8],
        bytes_of("or") == seq![111u8, 114u8],
        bytes_of("true") == seq![116u8, 114u8, 117u8, 101u8],
        bytes_of("false") == seq![102u8, 97u8, 108u8, 115u8, 101u8],
        bytes_of("for") == seq![102u8, 111u8, 114u8],
        bytes_of("while") == seq![119u8, 104u8, 105u8, 108u8, 101u8],
        bytes_of("let") == seq![108u8, 101u8, 116u8],
        bytes_of("fn") == seq![102u8, 110u8],
        bytes_of("class") == seq![99u8, 108u8, 97u8, 115u8, 115u8],
        bytes_of("return") == seq![114u8, 101u8, 116u8, 117u8, 114u8, 110u8],
        bytes_of("nil") == seq![110u8, 105u8, 108u8],
{
    broadcast use vstd::string::group_string_axioms;

    reveal_strlit("if");
    reveal_strlit("else");
    reveal_strlit("and");
    reveal_strlit("or");
    reveal_strlit("true");
    reveal_strlit("false");
    reveal_strlit("for");
    reveal_strlit("while");
    reveal_strlit("let");
    reveal_strlit("fn");
    reveal_strlit("class");
    reveal_strlit("return");
    reveal_strlit("nil");
    assert(vstd::string::is_ascii("if"));
    assert(vstd::string::is_ascii("else"));
    assert(vstd::string::is_ascii("and"));
    assert(vstd::string::is_ascii("or"));
    assert(vstd::string::is_ascii("true"));
    assert(vstd::string::is_ascii("false"));
    assert(vstd::string::is_ascii("for"));
    assert(vstd::string::is_ascii("while"));
    assert(vstd::string::is_ascii("let"));
    assert(vstd::string::is_ascii("fn"));
    assert(vstd::string::is_ascii("class"));
    assert(vstd::string::is_ascii("return"));
    assert(vstd::string::is_ascii("nil"));
    assert(bytes_of("if") =~= seq![105u8, 102u8]);
    assert(bytes_of("else") =~= seq![101u8, 108u8, 115u8, 101u8]);
    assert(bytes_of("and") =~= seq![97u8, 110u8, 100u8]);
    assert(bytes_of("or") =~= seq![111u8, 114u8]);
    assert(bytes_of("true") =~= seq![116u8, 114u8, 117u8, 101u8]);
    assert(bytes_of("false") =~= seq![102u8, 97u8, 108u8, 115u8, 101u8]);
    assert(bytes_of("for") =~= seq![102u8, 111u8, 114u8]);
    assert(bytes_of("while") =~= seq![119u8, 104u8, 105u8, 108u8, 101u8]);
    assert(bytes_of("let") =~= seq![108u8, 101u8, 116u8]);
    assert(bytes_of("fn") =~= seq![102u8, 110u8]);
    assert(bytes_of("class") =~= seq![99u8, 108u8, 97u8, 115u8, 115u8]);
    assert(bytes_of("return") =~= seq![114u8, 101u8, 116u8, 117u8, 114u8, 110u8]);
    assert(bytes_of("nil") =~= seq![110u8, 105u8, 108u8]);
}

/// A text made of letters alone is one word.
proof fn lemma_name_end_of_word(src: Seq<u8>, pos: int)
    requires
        0 <= pos <= src.len(),
        forall|i: int| 0 <= i < src.len() ==> is_alpha(#[trigger] src[i]),
    ensures
        name_end(src, pos) == src.len(),
    decreases src.len() - pos,
{
    if pos < src.len() {
        lemma_name_end_of_word(src, pos + 1);
    }
}

/// The scan of a text that is one word spelling a keyword: the keyword's
/// token, and the end.
proof fn lemma_scan_of_keyword(src: Seq<u8>, token_type: TokenType)
    requires
        0 < src.len(),
        forall|i: int| 0 <= i < src.len() ==> is_alpha(#[trigger] src[i]),
        keyword(src) == Some(token_type),
    ensures
        scan(src).errors == Seq::<crate::error::ScanError>::empty(),
        scan(src).tokens == seq![
            TokenView { token_type, lexeme: src, literal: ValueView::Nil, line: 1 },
            eof_token(1),
        ],
{
    lemma_name_end_of_word(src, 1);
    assert(src.subrange(0, src.len() as int) =~= src);
    let step = scan_token(src, 0, 1);
    assert(is_alpha(src[0]));
    assert(step == scan_identifier(src, 0, 1));
    let empty = Scan { tokens: Seq::empty(), errors: Seq::empty() };
    let found = crate::scanner::scan_with(empty, step);
    assert(scan(src) == scan_from(src, src.len() as int, 1, found));
    assert(scan(src).tokens =~= seq![
        TokenView { token_type, lexeme: src, literal: ValueView::Nil, line: 1 },
        eof_token(1),
    ]);
}

/// In a text without a double quote from `pos` up to the one at `quote`,
/// the string that is open at `pos` ends at `quote`.
proof fn lemma_string_ends_at_quote(src: Seq<u8>, pos: int, line: int, quote: int)
    requires
        0 <= pos <= quote < src.len(),
        src[quote] == '"' as u8,
        forall|i: int| pos <= i < quote ==> #[trigger] src[i] != '"' as u8,
    ensures
        string_scan(src, pos, line).0 == quote,
        string_scan(src, pos, line).1 >= line,
    decreases quote - pos,
{
    if pos < quote {
        lemma_string_ends_at_quote(
            src,
            pos + 1,
            if src[pos] == '\n' as u8 {
                line + 1
            } else {
                line
            },
            quote,
        );
    }
}

/// Whatever the heap, the text that `print` writes of `true`, of `false`,
/// of `nil`, and of a string that holds no double quote, read as a literal
/// (a string between double quotes), scans without error to tokens that the
/// parser reads as a literal of that very value.
pub proof fn printed_literal_reads_back(heap: HeapView, v: ValueView, ts: Seq<Rc<Token>>, next_id: u64)
    requires
        v is Bool || v is Nil || v is String,
        v matches ValueView::String(s) ==> s.len() + 2 < usize::MAX && forall|i: int|
            0 <= i < s.len() ==> #[trigger] s[i] != '"' as u8,
        heap.printed(v) matches PrintedView::Text(text) && token_views(ts) == scan(
            literal_text(text, v),
        ).tokens,
    ensures
        heap.printed(v) matches PrintedView::Text(text) && scan(literal_text(text, v)).errors.len() == 0,
        literal_value(ts, next_id) == Some(v),
{
    lemma_keyword_bytes();
    match v {
        ValueView::Bool(b) => {
            if b {
                let src = bytes_of("true");
                assert(keyword(src) == Some(TokenType::True));
                lemma_scan_of_keyword(src, TokenType::True);
            } else {
                let src = bytes_of("false");
                assert(keyword(src) == Some(TokenType::False));
                lemma_scan_of_keyword(src, TokenType::False);
            }
            assert(heap.printed(v) == PrintedView::Text(
                if b {
                    bytes_of("true")
                } else {
                    bytes_of("false")
                },
            ));
            assert(token_views(ts).len() == 2);
            assert(ts.len() == 2);
            assert(ts[0]@ == token_views(ts)[0]);
            assert(ts[1]@ == token_views(ts)[1]);
        },
        ValueView::Nil => {
            let src = bytes_of("nil");
            assert(keyword(src) == Some(TokenType::Nil));
            lemma_scan_of_keyword(src, TokenType::Nil);
            assert(heap.printed(v) == PrintedView::Text(bytes_of("nil")));
            assert(token_views(ts).len() == 2);
            assert(ts.len() == 2);
            assert(ts[0]@ == token_views(ts)[0]);
            assert(ts[1]@ == token_views(ts)[1]);
        },
        ValueView::String(s) => {
            let src = literal_text(s, v);
            let quote: int = s.len() as int + 1;
            assert(src.len() == s.len() + 2);
            assert(src[0] == '"' as u8);
            assert(src[quote] == '"' as u8);
            assert forall|i: int| 1 <= i < quote implies #[trigger] src[i] != '"' as u8 by {
                assert(src[i] == s[i - 1]);
            }
            lemma_string_ends_at_quote(src, 1, 1, quote);
            let step = scan_token(src, 0, 1);
            assert(step == scan_string(src, 0, 1));
            assert(src.subrange(1, quote) =~= s);
            let empty = Scan { tokens: Seq::empty(), errors: Seq::empty() };
            let found = crate::scanner::scan_with(empty, step);
            assert(step.next == src.len());
            assert(scan(src) == scan_from(src, src.len() as int, step.line, found));
            assert(scan(src).tokens.len() == 2);
            assert(ts.len() == 2);
            assert(ts[0]@ == token_views(ts)[0]);
            assert(ts[1]@ == token_views(ts)[1]);
            assert(ts[0].token_type == TokenType::String);
            assert(ts[0].literal@ == v);
        },
        _ => {},
    }
}

} // verus!
