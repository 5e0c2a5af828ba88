use lax::ast::expr::IdGenerator;
use lax::ast::parser::Parser;
use lax::error::ErrorStatus;
use lax::interpreter::Interpreter;
use lax::resolver::Resolver;
use lax::scanner::Scanner;

fn resolve(source: &str) -> (Interpreter, ErrorStatus, Resolver) {
    let mut status = ErrorStatus::new();
    let mut interpreter = Interpreter::new();
    let mut scanner = Scanner::new(source.to_string());
    let tokens = scanner.scan_tokens(&mut status);
    let mut parser = Parser::new(tokens, IdGenerator::new());
    let stmts = parser.parse(&mut status);
    assert!(!status.had_compile_error);
    let mut resolver = Resolver::new();
    resolver.resolve(&stmts, &mut interpreter, &mut status);
    (interpreter, status, resolver)
}

fn depths(interpreter: &Interpreter) -> Vec<(u64, usize)> {
    let mut found: Vec<(u64, usize)> = interpreter.locals.iter().map(|(id, depth)| (*id, *depth)).collect();
    found.sort();
    found
}

#[test]
fn records_the_distance_to_the_defining_scope() {
    // ids: 1#0, a#1, a#2, 2#3, b#4, a#5, +#6
    let (interpreter, status, resolver) = resolve("let a = 1; { print a; { let b = 2; print b + a; } }");
    assert!(!status.had_compile_error);
    assert_eq!(depths(&interpreter), vec![(1, 1), (3, 0), (4, 2)]);
    assert!(resolver.scopes.is_empty());
}

#[test]
fn names_that_no_scope_holds_are_left_to_the_globals() {
    let (interpreter, status, _) = resolve("print clock; print nowhere;");
    assert!(!status.had_compile_error);
    assert_eq!(depths(&interpreter), vec![]);
}

#[test]
fn parameters_and_closures() {
    // fn f(x) { fn g() { return x; } return g; }  ids: x#0, g#1
    let (interpreter, status, _) = resolve("fn f(x) { fn g() { return x; } return g; }");
    assert!(!status.had_compile_error);
    assert_eq!(depths(&interpreter), vec![(0, 1), (1, 0)]);
}

#[test]
fn this_and_super_lie_behind_the_method_scope() {
    // class A { m() { return this; } } class B < A { m() { return super.m; } }
    // ids: this#0, A(superclass)#1, super#2
    let (interpreter, status, _) =
        resolve("class A { m() { return this; } } class B < A { m() { return super.m; } }");
    assert!(!status.had_compile_error);
    assert_eq!(depths(&interpreter), vec![(0, 1), (1, 0), (2, 2)]);
}

#[test]
fn assignment_records_the_distance_of_its_target() {
    // ids: 1#0, the target a#1, 2#2, the assignment #3
    let (interpreter, _, _) = resolve("let a = 1; { a = 2; }");
    assert_eq!(depths(&interpreter), vec![(3, 1)]);
}

#[test]
fn resolution_goes_on_behind_an_error() {
    let (interpreter, status, _) = resolve("return 1; { let a = a; let b = 1; print b; print this; }");
    assert!(status.had_compile_error);
    assert!(!status.had_runtime_error);
    let reports: Vec<String> =
        status.reports.iter().map(|d| String::from_utf8(d.to_text()).unwrap()).collect();
    assert_eq!(
        reports,
        vec![
            "[line 1] Can't return from top-level code.",
            "[line 1] Error at 'a': Can't read local variable in its own initializer.",
            "[line 1] Can't use 'this' outside of a class.",
        ]
    );
    assert_eq!(depths(&interpreter), vec![(1, 0), (3, 0)]);
}

#[test]
fn the_interpreter_records_what_it_is_told() {
    let mut interpreter = Interpreter::new();
    interpreter.resolve(7, 3);
    interpreter.resolve(7, 4);
    interpreter.resolve(8, 0);
    assert_eq!(depths(&interpreter), vec![(7, 4), (8, 0)]);
}
