use lax::ast::expr::IdGenerator;
use lax::ast::parser::Parser;
use lax::error::Diagnostic;
use lax::error::ErrorStatus;
use lax::heap::Printed;
use lax::interpreter::Interpreter;
use lax::resolver::Resolver;
use lax::scanner::Scanner;

struct Outcome {
    output: Vec<String>,
    reports: Vec<String>,
    failed_early: bool,
    failed_late: bool,
}

fn render(printed: &Printed) -> String {
    match printed {
        Printed::Text(text) => String::from_utf8_lossy(text).into_owned(),
        Printed::Number(bits) => format!("{}", f64::from_bits(*bits)),
    }
}

fn run(source: &str) -> Outcome {
    let mut status = ErrorStatus::new();
    let mut interpreter = Interpreter::new();
    let mut scanner = Scanner::new(source.to_string());
    let tokens = scanner.scan_tokens(&mut status);
    let mut parser = Parser::new(tokens, IdGenerator::new());
    let stmts = parser.parse(&mut status);
    if !status.had_compile_error {
        let mut resolver = Resolver::new();
        resolver.resolve(&stmts, &mut interpreter, &mut status);
    }
    if !status.had_compile_error {
        if let Err(error) = interpreter.interpret(&stmts) {
            status.report_runtime_error(Diagnostic::Runtime(error));
        }
    }
    Outcome {
        output: interpreter.take_output().iter().map(render).collect(),
        reports: status
            .reports
            .iter()
            .map(|d| String::from_utf8_lossy(&d.to_text()).into_owned())
            .collect(),
        failed_early: status.had_compile_error,
        failed_late: status.had_runtime_error,
    }
}

fn exit_code(outcome: &Outcome) -> i32 {
    if outcome.failed_early {
        65
    } else if outcome.failed_late {
        70
    } else {
        0
    }
}

#[test]
fn arithmetic_and_precedence() {
    let outcome = run("print (1 + 2) * 3 - 4 / 2;");
    assert_eq!(outcome.output, vec!["7"]);
    assert_eq!(exit_code(&outcome), 0);
}

#[test]
fn closures_capture_by_reference() {
    let outcome = run(
        "fn make() { let i = 0; fn inc() { i = i + 1; return i; } return inc; }\n\
         let c = make(); print c(); print c(); print c();",
    );
    assert_eq!(outcome.reports, Vec::<String>::new());
    assert_eq!(outcome.output, vec!["1", "2", "3"]);
}

#[test]
fn scope_shadowing() {
    let outcome = run("let a = \"outer\";\n{ let a = \"inner\"; print a; }\nprint a;");
    assert_eq!(outcome.reports, Vec::<String>::new());
    assert_eq!(outcome.output, vec!["inner", "outer"]);
}

#[test]
fn logical_short_circuit_skips_right_operand() {
    let outcome = run(
        "fn bad() { print \"called\"; return true; }\nprint false and bad();\nprint true  or  bad();",
    );
    assert_eq!(outcome.reports, Vec::<String>::new());
    assert_eq!(outcome.output, vec!["false", "true"]);
}

#[test]
fn class_method_and_this() {
    let outcome = run(
        "class Greeter { hi() { print \"hi \" + this.name; } }\n\
         let g = Greeter(); g.name = \"lax\"; g.hi();",
    );
    assert_eq!(outcome.reports, Vec::<String>::new());
    assert_eq!(outcome.output, vec!["hi lax"]);
}

#[test]
fn inheritance_with_super() {
    let outcome = run(
        "class A { speak() { print \"A\"; } }\n\
         class B < A { speak() { super.speak(); print \"B\"; } }\n\
         B().speak();",
    );
    assert_eq!(outcome.reports, Vec::<String>::new());
    assert_eq!(outcome.output, vec!["A", "B"]);
}

#[test]
fn unterminated_string_is_a_scan_error() {
    let outcome = run("\"abc");
    assert_eq!(outcome.reports, vec!["[line 1] Error: Unterminated string."]);
    assert_eq!(exit_code(&outcome), 65);
    assert!(outcome.output.is_empty());
}

#[test]
fn missing_operand_is_a_parse_error_at_the_semicolon() {
    let outcome = run("print 1 + ;");
    assert_eq!(outcome.reports, vec!["[line 1] Error at ';': Expected expression."]);
    assert_eq!(exit_code(&outcome), 65);
}

#[test]
fn reading_a_local_in_its_own_initializer_is_a_static_error() {
    let outcome = run("{ let x = x; }");
    assert_eq!(
        outcome.reports,
        vec!["[line 1] Error at 'x': Can't read local variable in its own initializer."]
    );
    assert_eq!(exit_code(&outcome), 65);
}

#[test]
fn negating_a_string_is_a_runtime_error() {
    let outcome = run("-\"s\";");
    assert_eq!(outcome.reports, vec!["[line 1] Operand must be a number."]);
    assert_eq!(exit_code(&outcome), 70);
}

#[test]
fn a_class_cannot_inherit_from_itself() {
    let outcome = run("class A < A {}");
    assert_eq!(outcome.reports, vec!["[line 1] A class can't inherit from itself."]);
    assert_eq!(exit_code(&outcome), 65);
}

#[test]
fn initializer_call_yields_the_new_object() {
    let outcome = run(
        "class P { init(x) { this.x = x; return; } }\n\
         let p = P(3); print p.x; print p;\n\
         let q = P(4); print q.x; print p == q; print p == p;",
    );
    assert_eq!(outcome.reports, Vec::<String>::new());
    assert_eq!(outcome.output, vec!["3", "P instance", "4", "false", "true"]);
}

#[test]
fn wrong_argument_count_is_a_runtime_error() {
    let outcome = run("fn f(a, b) { return a; }\nf(1);");
    assert_eq!(outcome.reports, vec!["[line 2] Expected 2 arguments but got 1."]);
    assert_eq!(exit_code(&outcome), 70);
    let outcome = run("class C { init(a) {} }\nC();");
    assert_eq!(outcome.reports, vec!["[line 2] Expected 1 arguments but got 0."]);
    let outcome = run("class C {}\nC(1, 2);");
    assert_eq!(outcome.reports, vec!["[line 2] Expected 0 arguments but got 2."]);
}

#[test]
fn calling_what_is_not_callable_is_a_runtime_error() {
    let outcome = run("let a = 1; a();");
    assert_eq!(outcome.reports, vec!["[line 1] Can only call functions and classes."]);
    assert_eq!(exit_code(&outcome), 70);
}

#[test]
fn for_loop_runs_initializer_condition_and_increment() {
    let outcome = run("for (let i = 0; i < 3; i = i + 1) print i;");
    assert_eq!(outcome.reports, Vec::<String>::new());
    assert_eq!(outcome.output, vec!["0", "1", "2"]);
}

#[test]
fn while_loop_and_assignment_in_the_same_scope() {
    let outcome = run("{ let a = 1; a = 2; print a; }\nlet n = 0; while (n < 2) { n = n + 1; }\nprint n;");
    assert_eq!(outcome.reports, Vec::<String>::new());
    assert_eq!(outcome.output, vec!["2", "2"]);
}

#[test]
fn return_without_a_value_ends_the_call_with_nil() {
    let outcome = run("fn f() { return; print \"no\"; }\nprint f();");
    assert_eq!(outcome.reports, Vec::<String>::new());
    assert_eq!(outcome.output, vec!["nil"]);
}

#[test]
fn truthiness_of_zero_and_empty_string() {
    let outcome = run("if (0) print \"a\"; if (\"\") print \"b\"; if (nil) print \"c\"; else print \"d\"; print !0;");
    assert_eq!(outcome.output, vec!["a", "b", "d", "false"]);
}

#[test]
fn equality_rules() {
    let outcome = run(
        "print nil == nil; print 1 == 1; print \"a\" == \"a\"; print 1 == \"1\"; print nil != false;\n\
         fn f() {} print f == f; let g = f; print g == f;",
    );
    assert_eq!(outcome.reports, Vec::<String>::new());
    assert_eq!(outcome.output, vec!["true", "true", "true", "false", "true", "true", "true"]);
}

#[test]
fn division_by_zero_gives_infinity_or_nan() {
    let outcome = run("print 1 / 0; print 0 / 0 == 0 / 0; print 0 - 1 / 0;");
    assert_eq!(outcome.output, vec!["inf", "false", "-inf"]);
}

#[test]
fn number_operators_on_other_values_are_runtime_errors() {
    let outcome = run("print 1 + \"a\";");
    assert_eq!(outcome.reports, vec!["[line 1] Operator cannot be used on values of this type"]);
    let outcome = run("print \"a\" - \"b\";");
    assert_eq!(outcome.reports, vec!["[line 1] Operator cannot be used on strings"]);
    let outcome = run("print 1 != 2;");
    assert_eq!(outcome.reports, vec!["[line 1] Operator cannot be used on numbers"]);
}

#[test]
fn printing_of_values() {
    let outcome = run(
        "fn f() {} class C {} print f; print C; print C(); print clock; print true; print nil; print 2.5; print \"s\";",
    );
    assert_eq!(outcome.reports, Vec::<String>::new());
    assert_eq!(
        outcome.output,
        vec!["<fn f>", "C", "C instance", "<native fn>", "true", "nil", "2.5", "s"]
    );
}

#[test]
fn fields_shadow_methods_and_missing_property_is_an_error() {
    let outcome = run(
        "class C { m() { return 1; } }\nlet c = C(); print c.m(); c.m = 2; print c.m;\nprint c.none;",
    );
    assert_eq!(outcome.output, vec!["1", "2"]);
    assert_eq!(outcome.reports, vec!["[line 3] Undefined property 'none'."]);
    assert_eq!(exit_code(&outcome), 70);
}

#[test]
fn properties_of_what_is_no_object_are_errors() {
    let outcome = run("let a = 1; print a.b;");
    assert_eq!(outcome.reports, vec!["[line 1] Only instances have properties."]);
    let outcome = run("let a = 1; a.b = 2;");
    assert_eq!(outcome.reports, vec!["[line 1] Only instances have fields."]);
}

#[test]
fn methods_are_inherited_and_overridden() {
    let outcome = run(
        "class A { a() { return \"a\"; } b() { return \"A.b\"; } }\n\
         class B < A { b() { return \"B.b\"; } }\n\
         let b = B(); print b.a(); print b.b();",
    );
    assert_eq!(outcome.reports, Vec::<String>::new());
    assert_eq!(outcome.output, vec!["a", "B.b"]);
}

#[test]
fn inherited_initializer_sets_the_arity() {
    let outcome = run("class A { init(x) { this.x = x; } }\nclass B < A {}\nprint B(7).x;");
    assert_eq!(outcome.reports, Vec::<String>::new());
    assert_eq!(outcome.output, vec!["7"]);
}

#[test]
fn superclass_must_be_a_class() {
    let outcome = run("let a = 1;\nclass B < a {}");
    assert_eq!(outcome.reports, vec!["[line 2] Superclass must be a class."]);
    assert_eq!(exit_code(&outcome), 70);
}

#[test]
fn static_rules() {
    assert_eq!(run("return 1;").reports, vec!["[line 1] Can't return from top-level code."]);
    assert_eq!(
        run("class A { init() { return 1; } }").reports,
        vec!["[line 1] Can't return a value from an initializer."]
    );
    assert_eq!(run("print this;").reports, vec!["[line 1] Can't use 'this' outside of a class."]);
    assert_eq!(
        run("fn f() { super.m(); }").reports,
        vec!["[line 1] Can't use 'super' outside of a class."]
    );
    assert_eq!(
        run("class A { m() { super.m(); } }").reports,
        vec!["[line 1] Can't use 'super' in a class with no superclass."]
    );
    assert_eq!(
        run("{ let a = 1; let a = 2; }").reports,
        vec!["[line 1] Already variable with this name declared in this scope."]
    );
    assert_eq!(exit_code(&run("return 1;")), 65);
}

#[test]
fn undefined_variable_is_a_runtime_error() {
    let outcome = run("print a;");
    assert_eq!(outcome.reports, vec!["[line 1] 'a' cannot be found in current scope."]);
    let outcome = run("a = 1;");
    assert_eq!(outcome.reports, vec!["[line 1] Cannot assign a value to 'a' before it is declared"]);
    assert_eq!(exit_code(&outcome), 70);
}

#[test]
fn output_before_a_runtime_error_is_kept() {
    let outcome = run("print 1; print -nil; print 2;");
    assert_eq!(outcome.output, vec!["1"]);
    assert_eq!(exit_code(&outcome), 70);
}

#[test]
fn parser_recovers_at_the_next_statement() {
    let outcome = run("print 1 + ; print 2;\nlet = 3;\nprint 4;");
    assert_eq!(
        outcome.reports,
        vec![
            "[line 1] Error at ';': Expected expression.",
            "[line 2] Error at '=': Expect variable name.",
        ]
    );
    assert!(outcome.output.is_empty());
}

#[test]
fn error_at_the_end_of_the_text() {
    let outcome = run("print 1");
    assert_eq!(outcome.reports, vec!["[line 1] Error at end: Expect ';' after value."]);
    let outcome = run("print (");
    assert_eq!(outcome.reports, vec!["[line 1] Error at end: Expected expression."]);
}

#[test]
fn invalid_assignment_target() {
    let outcome = run("1 = 2;");
    assert_eq!(outcome.reports[0], "[line 1] Error at '=': Invalid assignment target.");
    assert_eq!(exit_code(&outcome), 65);
}

#[test]
fn recursion_and_budget() {
    let outcome = run("fn fib(n) { if (n < 2) return n; return fib(n - 1) + fib(n - 2); }\nprint fib(15);");
    assert_eq!(outcome.reports, Vec::<String>::new());
    assert_eq!(outcome.output, vec!["610"]);
}

#[test]
fn a_run_that_needs_more_than_its_budget_fails() {
    let mut status = ErrorStatus::new();
    let mut interpreter = Interpreter::new();
    interpreter.set_fuel(10);
    let mut scanner = Scanner::new("fn f(n) { return f(n + 1); }\nf(0);".to_string());
    let tokens = scanner.scan_tokens(&mut status);
    let mut parser = Parser::new(tokens, IdGenerator::new());
    let stmts = parser.parse(&mut status);
    let mut resolver = Resolver::new();
    resolver.resolve(&stmts, &mut interpreter, &mut status);
    let error = interpreter.interpret(&stmts).unwrap_err();
    assert_eq!(error.message(), b"Too many nested calls.");
    let mut scanner = Scanner::new("while (true) {}".to_string());
    let tokens = scanner.scan_tokens(&mut status);
    let mut parser = Parser::new(tokens, parser.ids);
    let stmts = parser.parse(&mut status);
    let error = interpreter.interpret(&stmts).unwrap_err();
    assert_eq!(error.message(), b"Too many iterations.");
    assert_eq!(error.token.line, 1);
}

#[test]
fn clock_tells_the_time_that_was_set() {
    let mut status = ErrorStatus::new();
    let mut interpreter = Interpreter::new();
    interpreter.set_clock(1234.5f64.to_bits());
    let mut scanner = Scanner::new("print clock(); print clock() - clock();".to_string());
    let tokens = scanner.scan_tokens(&mut status);
    let mut parser = Parser::new(tokens, IdGenerator::new());
    let stmts = parser.parse(&mut status);
    let mut resolver = Resolver::new();
    resolver.resolve(&stmts, &mut interpreter, &mut status);
    assert!(interpreter.interpret(&stmts).is_ok());
    let output: Vec<String> = interpreter.take_output().iter().map(render).collect();
    assert_eq!(output, vec!["1234.5", "0"]);
}

#[test]
fn strings_may_span_lines_and_hold_any_bytes() {
    let outcome = run("print \"a\nb\";\nprint \"h\u{e9}\" + \"!\";\nprint -nil;");
    assert_eq!(outcome.output, vec!["a\nb", "h\u{e9}!"]);
    assert_eq!(outcome.reports, vec!["[line 4] Operand must be a number."]);
}

#[test]
fn comments_and_unexpected_characters() {
    let outcome = run("// nothing\nprint 1; // one\n@");
    assert_eq!(outcome.reports, vec!["[line 3] Error: Unexpected character."]);
    assert!(outcome.output.is_empty());
    let outcome = run("// nothing\nprint 1; // one");
    assert_eq!(outcome.output, vec!["1"]);
}

#[test]
fn long_loops_run_in_bounded_space() {
    let mut status = ErrorStatus::new();
    let mut interpreter = Interpreter::new();
    let source = "let sum = 0; for (let i = 0; i < 300000; i = i + 1) { sum = sum + i; } print sum;";
    let mut scanner = Scanner::new(source.to_string());
    let tokens = scanner.scan_tokens(&mut status);
    let mut parser = Parser::new(tokens, IdGenerator::new());
    let stmts = parser.parse(&mut status);
    let mut resolver = Resolver::new();
    resolver.resolve(&stmts, &mut interpreter, &mut status);
    assert!(!status.had_compile_error);
    assert!(interpreter.interpret(&stmts).is_ok());
    let output: Vec<String> = interpreter.take_output().iter().map(render).collect();
    assert_eq!(output, vec!["44999850000"]);
    assert_eq!(interpreter.heap.environments.len(), 2);
    assert_eq!(interpreter.heap.functions.len(), 0);
}

#[test]
fn deep_recursion_within_the_budget() {
    let outcome = run("fn count(n) { if (n == 0) return 0; return 1 + count(n - 1); }\nprint count(500);");
    assert_eq!(outcome.reports, Vec::<String>::new());
    assert_eq!(outcome.output, vec!["500"]);
}
