use lax::error::Diagnostic;
use lax::error::ErrorStatus;
use lax::error::ScanError;
use lax::scanner::Scanner;
use lax::token::Token;
use lax::token::TokenType;
use lax::token::Value;
use std::rc::Rc;

fn scan(source: &str) -> (Vec<Rc<Token>>, ErrorStatus) {
    let mut status = ErrorStatus::new();
    let mut scanner = Scanner::new(source.to_string());
    let tokens = scanner.scan_tokens(&mut status);
    (tokens, status)
}

fn kinds(source: &str) -> Vec<TokenType> {
    scan(source).0.iter().map(|t| t.token_type).collect()
}

fn messages(status: &ErrorStatus) -> Vec<String> {
    status.reports.iter().map(|d| String::from_utf8(d.to_text()).unwrap()).collect()
}

#[test]
fn scans_punctuation_and_comparisons() {
    assert_eq!(
        kinds("( ) { } , . - + ; * / ! != = == > >= < <="),
        vec![
            TokenType::OpenParen,
            TokenType::CloseParen,
            TokenType::OpenBrace,
            TokenType::CloseBrace,
            TokenType::Comma,
            TokenType::Dot,
            TokenType::Minus,
            TokenType::Plus,
            TokenType::Semicolon,
            TokenType::Star,
            TokenType::Slash,
            TokenType::Bang,
            TokenType::BangEqual,
            TokenType::Equal,
            TokenType::EqualEqual,
            TokenType::Greater,
            TokenType::GreaterEqual,
            TokenType::Less,
            TokenType::LessEqual,
            TokenType::Eof,
        ]
    );
}

#[test]
fn longest_match_of_comparisons() {
    assert_eq!(
        kinds("!===<=="),
        vec![
            TokenType::BangEqual,
            TokenType::EqualEqual,
            TokenType::LessEqual,
            TokenType::Equal,
            TokenType::Eof
        ]
    );
    let (tokens, _) = scan("a!=b");
    assert_eq!(*tokens[1].lexeme, b"!=".to_vec());
}

#[test]
fn scans_every_keyword() {
    assert_eq!(
        kinds("if else and or true false for while let fn class return nil print super this"),
        vec![
            TokenType::If,
            TokenType::Else,
            TokenType::And,
            TokenType::Or,
            TokenType::True,
            TokenType::False,
            TokenType::For,
            TokenType::While,
            TokenType::Let,
            TokenType::Fn,
            TokenType::Class,
            TokenType::Return,
            TokenType::Nil,
            TokenType::Print,
            TokenType::Super,
            TokenType::This,
            TokenType::Eof,
        ]
    );
    assert_eq!(
        kinds("iff Nil _x x1 classy"),
        vec![
            TokenType::Identifier,
            TokenType::Identifier,
            TokenType::Identifier,
            TokenType::Identifier,
            TokenType::Identifier,
            TokenType::Eof,
        ]
    );
}

#[test]
fn scans_number_literals_as_doubles() {
    let (tokens, status) = scan("12.5 7 0.1 3. .5 1e3 123456789012345678901234567890");
    assert!(!status.had_compile_error);
    let numbers: Vec<(Vec<u8>, f64)> = tokens
        .iter()
        .filter_map(|t| match t.literal {
            Value::Num(bits) => Some(((*t.lexeme).clone(), f64::from_bits(bits))),
            _ => None,
        })
        .collect();
    assert_eq!(
        numbers,
        vec![
            (b"12.5".to_vec(), 12.5),
            (b"7".to_vec(), 7.0),
            (b"0.1".to_vec(), 0.1),
            (b"3".to_vec(), 3.0),
            (b"5".to_vec(), 5.0),
            (b"1".to_vec(), 1.0),
            (b"123456789012345678901234567890".to_vec(), 123456789012345678901234567890.0),
        ]
    );
    assert_eq!(
        kinds("3. .5 1e3"),
        vec![
            TokenType::Number,
            TokenType::Dot,
            TokenType::Dot,
            TokenType::Number,
            TokenType::Number,
            TokenType::Identifier,
            TokenType::Eof
        ]
    );
}

#[test]
fn number_literals_round_as_the_machine_does() {
    for text in [
        "0.30000000000000004",
        "9007199254740993",
        "2.2250738585072014",
        "179769313486231570000000000000000000000000000000000000000000000000000000000000000000000000000000000000000000000000000000000000000000000000000000000000000000000000000000000000000000000000000000000000000000000000000000000000000000000000000000000000000000000000000000000000000000000000000000000000000000",
        "0.000000000000000000000000000000000000000000000000000000000000000000000000000000000000000000001",
        "4.35",
        "8.41",
        "1.15",
    ] {
        let (tokens, status) = scan(text);
        assert!(!status.had_compile_error);
        match tokens[0].literal {
            Value::Num(bits) => assert_eq!(f64::from_bits(bits), text.parse::<f64>().unwrap(), "{}", text),
            _ => panic!("not a number"),
        }
    }
}

#[test]
fn scans_strings_with_their_value_and_counts_their_lines() {
    let (tokens, status) = scan("\"one\" \"two\nlines\" x");
    assert!(!status.had_compile_error);
    assert_eq!(tokens[0].token_type, TokenType::String);
    assert_eq!(*tokens[0].lexeme, b"\"one\"".to_vec());
    match &tokens[0].literal {
        Value::String(s) => assert_eq!(**s, b"one".to_vec()),
        _ => panic!("not a string"),
    }
    assert_eq!(tokens[0].line, 1);
    match &tokens[1].literal {
        Value::String(s) => assert_eq!(**s, b"two\nlines".to_vec()),
        _ => panic!("not a string"),
    }
    assert_eq!(tokens[1].line, 2);
    assert_eq!(tokens[2].line, 2);
    assert_eq!(tokens[3].token_type, TokenType::Eof);
    assert_eq!(tokens[3].line, 2);
    assert!(tokens[3].lexeme.is_empty());
}

#[test]
fn ends_with_one_eof_and_lines_never_decrease() {
    for source in ["", "\n\n", "a\nb\n\"x\ny\"\n// c\n1 @ 2", "\"open\n\n", "let a = 1;\nprint a;"] {
        let (tokens, _) = scan(source);
        assert_eq!(tokens.last().unwrap().token_type, TokenType::Eof);
        assert_eq!(tokens.iter().filter(|t| t.token_type == TokenType::Eof).count(), 1);
        for pair in tokens.windows(2) {
            assert!(pair[0].line <= pair[1].line);
        }
    }
    let (tokens, _) = scan("a\nb\n\nc");
    let lines: Vec<usize> = tokens.iter().map(|t| t.line).collect();
    assert_eq!(lines, vec![1, 2, 4, 4]);
}

#[test]
fn scanning_goes_on_behind_an_error() {
    let (tokens, status) = scan("a @ b\n# c \"open");
    assert!(status.had_compile_error);
    assert!(!status.had_runtime_error);
    assert_eq!(
        messages(&status),
        vec![
            "[line 1] Error: Unexpected character.",
            "[line 2] Error: Unexpected character.",
            "[line 2] Error: Unterminated string.",
        ]
    );
    let names: Vec<Vec<u8>> = tokens.iter().map(|t| (*t.lexeme).clone()).collect();
    assert_eq!(names, vec![b"a".to_vec(), b"b".to_vec(), b"c".to_vec(), Vec::new()]);
}

#[test]
fn unterminated_string_reports_the_line_reached() {
    let (tokens, status) = scan("\"a\nb\nc");
    assert_eq!(messages(&status), vec!["[line 3] Error: Unterminated string."]);
    assert_eq!(tokens.len(), 1);
    assert_eq!(tokens[0].line, 3);
    match &status.reports[0] {
        Diagnostic::Scan(e) => {
            assert_eq!(e.line, 3);
            assert_eq!(e.message, "Unterminated string.");
        }
        _ => panic!("not a scan error"),
    }
}

#[test]
fn comments_run_to_the_end_of_the_line() {
    assert_eq!(kinds("1 // 2 \"\n3"), vec![TokenType::Number, TokenType::Number, TokenType::Eof]);
    assert_eq!(kinds("//"), vec![TokenType::Eof]);
    assert_eq!(kinds("/ /"), vec![TokenType::Slash, TokenType::Slash, TokenType::Eof]);
    let (tokens, _) = scan("// a\n// b\nx");
    assert_eq!(tokens[0].line, 3);
}

#[test]
fn bytes_beyond_ascii_are_unexpected_outside_strings() {
    let (tokens, status) = scan("\u{e9}");
    assert_eq!(messages(&status).len(), 2);
    assert_eq!(tokens.len(), 1);
    let (tokens, status) = scan("\"\u{e9}\"");
    assert!(!status.had_compile_error);
    match &tokens[0].literal {
        Value::String(s) => assert_eq!(**s, "\u{e9}".as_bytes().to_vec()),
        _ => panic!("not a string"),
    }
}

#[test]
fn printed_literals_scan_back_to_themselves() {
    for (text, kind) in [("true", TokenType::True), ("false", TokenType::False), ("nil", TokenType::Nil)] {
        let (tokens, status) = scan(text);
        assert!(!status.had_compile_error);
        assert_eq!(tokens.len(), 2);
        assert_eq!(tokens[0].token_type, kind);
    }
    for integer in [0.0f64, 7.0, 1024.0, 9007199254740992.0, 1e22, 1e300] {
        let text = format!("{}", integer);
        let (tokens, status) = scan(&text);
        assert!(!status.had_compile_error);
        assert_eq!(tokens.len(), 2);
        match tokens[0].literal {
            Value::Num(bits) => assert_eq!(f64::from_bits(bits), integer),
            _ => panic!("not a number"),
        }
    }
    for string in ["", "abc", "a b\tc", "x'y"] {
        let (tokens, status) = scan(&format!("\"{}\"", string));
        assert!(!status.had_compile_error);
        assert_eq!(tokens.len(), 2);
        match &tokens[0].literal {
            Value::String(s) => assert_eq!(**s, string.as_bytes().to_vec()),
            _ => panic!("not a string"),
        }
    }
}

#[test]
fn scan_error_is_written_with_its_line() {
    let error = ScanError::new(12, "Unexpected character.");
    assert_eq!(error.line, 12);
    assert_eq!(error.to_text(), b"[line 12] Error: Unexpected character.".to_vec());
    assert_eq!(ScanError::new(0, "x").to_text(), b"[line 0] Error: x".to_vec());
}
