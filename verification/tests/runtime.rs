use lax::ast::expr::IdGenerator;
use lax::ast::parser::Parser;
use lax::callables::callable::Callable;
use lax::callables::callable::FuncType;
use lax::callables::callable::Native;
use lax::callables::lax_class::LaxClass;
use lax::callables::lax_object::LaxObject;
use lax::callables::native_functions::NativeDeclarations;
use lax::enviroment::Enviroment;
use lax::environment::Environment;
use lax::error::Diagnostic;
use lax::error::ErrorStatus;
use lax::error::Message;
use lax::error::ParseError;
use lax::error::RuntimeError;
use lax::heap::Heap;
use lax::heap::Printed;
use lax::interpreter::Interpreter;
use lax::resolver::Resolver;
use lax::scanner::Scanner;
use lax::table::Table;
use lax::text::decimal;
use lax::token::Token;
use lax::token::TokenType;
use lax::token::Value;
use std::rc::Rc;

fn name(text: &str) -> Rc<Vec<u8>> {
    Rc::new(text.as_bytes().to_vec())
}

fn token(text: &str, line: usize) -> Rc<Token> {
    Rc::new(Token::new(TokenType::Identifier, name(text), Value::Nil, line))
}

fn number(value: &Value) -> f64 {
    match value {
        Value::Num(bits) => f64::from_bits(*bits),
        other => panic!("not a number: {:?}", other),
    }
}

fn num(n: f64) -> Value {
    Value::Num(n.to_bits())
}

fn text_of(error: &RuntimeError) -> String {
    String::from_utf8(error.to_text()).unwrap()
}

#[test]
fn decimal_digits_of_numbers() {
    assert_eq!(decimal(0), b"0".to_vec());
    assert_eq!(decimal(9), b"9".to_vec());
    assert_eq!(decimal(10), b"10".to_vec());
    assert_eq!(decimal(1234567890), b"1234567890".to_vec());
    assert_eq!(decimal(usize::MAX), usize::MAX.to_string().into_bytes());
}

#[test]
fn table_maps_names_to_their_last_value() {
    let mut table: Table<bool> = Table::new();
    assert!(!table.contains_key(b"a"));
    assert!(table.get(b"a").is_none());
    table.insert(name("a"), false);
    table.insert(name("b"), true);
    table.insert(name("a"), true);
    assert_eq!(table.get(b"a"), Some(&true));
    assert_eq!(table.get(b"b"), Some(&true));
    assert!(table.contains_key(b"b"));
    assert!(!table.contains_key(b""));
    assert_eq!(table.entries.len(), 2);
}

#[test]
fn single_scope_defines_gets_and_assigns() {
    let mut scope = Enviroment::new();
    let a = token("a", 3);
    assert_eq!(text_of(&scope.get(&a).unwrap_err()), "[line 3] Undefined variable 'a'.");
    assert_eq!(
        text_of(&scope.assign(&a, num(1.0)).unwrap_err()),
        "[line 3] Undefined variable 'a'"
    );
    scope.define(name("a"), num(1.0));
    assert_eq!(number(&scope.get(&a).unwrap()), 1.0);
    scope.define(name("a"), num(2.0));
    assert_eq!(number(&scope.get(&a).unwrap()), 2.0);
    assert!(scope.assign(&a, num(3.0)).is_ok());
    assert_eq!(number(&scope.get(&a).unwrap()), 3.0);
}

#[test]
fn environments_look_outwards() {
    let mut scopes: Vec<Environment> = Vec::new();
    let globals = Environment::new_wrapped(&mut scopes, None);
    let middle = Environment::new_wrapped(&mut scopes, Some(globals));
    let inner = Environment::new_wrapped(&mut scopes, Some(middle));
    assert_eq!((globals, middle, inner), (0, 1, 2));
    Environment::define_in(&mut scopes, globals, name("g"), num(1.0));
    Environment::define_in(&mut scopes, middle, name("m"), num(2.0));
    scopes[inner].define(name("m"), num(3.0));
    let g = token("g", 1);
    let m = token("m", 1);
    let x = token("x", 9);

    assert_eq!(number(&Environment::get(&scopes, inner, &g).unwrap()), 1.0);
    assert_eq!(number(&Environment::get(&scopes, inner, &m).unwrap()), 3.0);
    assert_eq!(number(&Environment::get(&scopes, middle, &m).unwrap()), 2.0);
    assert_eq!(
        text_of(&Environment::get(&scopes, inner, &x).unwrap_err()),
        "[line 9] 'x' cannot be found in current scope."
    );
    assert_eq!(
        text_of(&Environment::get(&scopes, globals, &m).unwrap_err()),
        "[line 1] 'm' cannot be found in current scope."
    );

    assert_eq!(Environment::ancestor(&scopes, inner, 0), Some(inner));
    assert_eq!(Environment::ancestor(&scopes, inner, 1), Some(middle));
    assert_eq!(Environment::ancestor(&scopes, inner, 2), Some(globals));
    assert_eq!(Environment::ancestor(&scopes, inner, 3), None);
    assert_eq!(Environment::ancestor(&scopes, 7, 0), None);
    assert_eq!(Environment::defining_scope(&scopes, inner, b"g"), Some(globals));
    assert_eq!(Environment::defining_scope(&scopes, inner, b"m"), Some(inner));
    assert_eq!(Environment::defining_scope(&scopes, inner, b"x"), None);

    assert_eq!(number(&Environment::get_at(&scopes, inner, 1, &m).unwrap()), 2.0);
    assert_eq!(number(&Environment::get_at(&scopes, inner, 0, &m).unwrap()), 3.0);
    assert_eq!(
        text_of(&Environment::get_at(&scopes, inner, 0, &g).unwrap_err()),
        "[line 1] 'g' cannot be found in eclosing scopes."
    );
    assert_eq!(
        text_of(&Environment::get_at(&scopes, inner, 3, &g).unwrap_err()),
        "[line 1] The scope where 'g' is declared cannot be accessed"
    );
}

#[test]
fn environments_assign_where_the_name_is_defined() {
    let mut scopes: Vec<Environment> = Vec::new();
    let globals = Environment::new_wrapped(&mut scopes, None);
    let inner = Environment::new_wrapped(&mut scopes, Some(globals));
    Environment::define_in(&mut scopes, globals, name("g"), num(1.0));
    let g = token("g", 2);
    let x = token("x", 2);

    assert!(Environment::assign(&mut scopes, inner, &g, num(5.0)).is_ok());
    assert_eq!(number(&Environment::get(&scopes, globals, &g).unwrap()), 5.0);
    assert!(!scopes[inner].values.values.contains_key(b"g"));
    assert_eq!(
        text_of(&Environment::assign(&mut scopes, inner, &x, num(5.0)).unwrap_err()),
        "[line 2] Cannot assign a value to 'x' before it is declared"
    );

    assert!(Environment::assign_at(&mut scopes, inner, 0, &g, num(6.0)).is_ok());
    assert_eq!(number(&Environment::get_at(&scopes, inner, 0, &g).unwrap()), 6.0);
    assert_eq!(number(&Environment::get_at(&scopes, inner, 1, &g).unwrap()), 5.0);
    assert!(Environment::assign_at(&mut scopes, inner, 1, &x, num(7.0)).is_ok());
    assert_eq!(number(&Environment::get(&scopes, globals, &x).unwrap()), 7.0);
    assert_eq!(
        text_of(&Environment::assign_at(&mut scopes, inner, 2, &x, num(8.0)).unwrap_err()),
        "[line 2] Cannot assign value to 'x' in unreachable scope."
    );
}

#[test]
fn errors_are_written_in_their_forms() {
    let eof = Rc::new(Token::new(TokenType::Eof, name(""), Value::Nil, 4));
    assert_eq!(
        ParseError::new(eof, "Expect ';' after value.").to_text(),
        b"[line 4] Error at end: Expect ';' after value.".to_vec()
    );
    assert_eq!(
        ParseError::new(token("x", 2), "Expected expression.").to_text(),
        b"[line 2] Error at 'x': Expected expression.".to_vec()
    );
    let plain = RuntimeError::new(token("-", 7), "Operand must be a number.");
    assert_eq!(plain.message(), b"Operand must be a number.".to_vec());
    assert_eq!(plain.to_text(), b"[line 7] Operand must be a number.".to_vec());
    let named = RuntimeError::named(token("speed", 1), "Undefined property '", "'.");
    assert_eq!(named.to_text(), b"[line 1] Undefined property 'speed'.".to_vec());
    let arity = RuntimeError::arity(token(")", 30), 2, 11);
    assert_eq!(arity.to_text(), b"[line 30] Expected 2 arguments but got 11.".to_vec());
    let copy = arity.copy();
    assert!(matches!(copy.message, Message::Arity(2, 11)));
    assert_eq!(Message::Text("a").to_text(b"x"), b"a".to_vec());
    assert_eq!(
        Diagnostic::Runtime(RuntimeError::new(token("a", 1), "b")).to_text(),
        b"[line 1] b".to_vec()
    );
}

#[test]
fn status_records_reports_and_their_kind() {
    let mut status = ErrorStatus::new();
    assert!(!status.had_compile_error && !status.had_runtime_error);
    assert!(status.reports.is_empty());
    status.report_compile_error(Diagnostic::Parse(ParseError::new(token("x", 1), "m")));
    assert!(status.had_compile_error && !status.had_runtime_error);
    status.report_runtime_error(Diagnostic::Runtime(RuntimeError::new(token("y", 2), "n")));
    assert!(status.had_compile_error && status.had_runtime_error);
    assert_eq!(status.reports.len(), 2);
    assert!(matches!(status.reports[0], Diagnostic::Parse(_)));
    assert!(matches!(status.reports[1], Diagnostic::Runtime(_)));
}

#[test]
fn values_are_truthy_unless_nil_or_false() {
    assert!(!Value::Nil.is_truthy());
    assert!(!Value::Bool(false).is_truthy());
    assert!(Value::Bool(true).is_truthy());
    assert!(num(0.0).is_truthy());
    assert!(Value::new_string(Vec::new()).is_truthy());
    assert!(Value::LaxObject(0).is_truthy());
    assert!(Value::Callable(Callable::LaxFn(0)).is_truthy());
}

#[test]
fn values_are_equal_by_content_or_identity() {
    assert!(Value::Nil.equals(&Value::Nil));
    assert!(!Value::Nil.equals(&Value::Bool(false)));
    assert!(num(0.0).equals(&num(-0.0)));
    assert!(!num(f64::NAN).equals(&num(f64::NAN)));
    assert!(Value::new_string(b"a".to_vec()).equals(&Value::new_string(b"a".to_vec())));
    assert!(!Value::new_string(b"a".to_vec()).equals(&Value::new_string(b"b".to_vec())));
    assert!(Value::Callable(Callable::LaxFn(1)).equals(&Value::Callable(Callable::LaxFn(1))));
    assert!(!Value::Callable(Callable::LaxFn(1)).equals(&Value::Callable(Callable::LaxFn(2))));
    assert!(!Value::Callable(Callable::LaxFn(1)).equals(&Value::Callable(Callable::LaxClass(1))));
    let clock = Callable::new_native_fn("clock", Native::Clock, 0);
    assert!(Value::Callable(clock).equals(&Value::Callable(clock)));
    assert!(!Value::LaxObject(1).equals(&num(1.0)));
    let copy = Value::new_string(b"same".to_vec()).copy();
    assert!(matches!(copy, Value::String(s) if *s == b"same".to_vec()));
}

#[test]
fn a_new_interpreter_has_the_globals_and_the_program_scope() {
    let interpreter = Interpreter::new();
    assert_eq!(interpreter.globals, 0);
    assert_eq!(interpreter.environment, 1);
    assert_eq!(interpreter.heap.environments.len(), 2);
    assert_eq!(interpreter.heap.environments[1].enclosing, Some(0));
    assert_eq!(interpreter.heap.environments[0].enclosing, None);
    assert_eq!(interpreter.fuel, u64::MAX);
    let clock = token("clock", 1);
    match Environment::get(&interpreter.heap.environments, interpreter.environment, &clock).unwrap() {
        Value::Callable(Callable::NativeFn(native)) => {
            assert_eq!(native.arity, 0);
            assert_eq!(native.name, "clock");
            assert_eq!(native.func, Native::Clock);
        }
        other => panic!("{:?}", other),
    }
    let mut heap = Heap::new();
    let globals = heap.new_environment(None);
    let mut natives = NativeDeclarations::new(globals);
    assert_eq!(natives.declare_natives(&mut heap), globals);
    assert!(heap.environments[globals].values.values.contains_key(b"clock"));
}

fn program(source: &str) -> (Interpreter, Vec<lax::ast::stmt::Stmt>) {
    let mut status = ErrorStatus::new();
    let mut interpreter = Interpreter::new();
    let mut scanner = Scanner::new(source.to_string());
    let tokens = scanner.scan_tokens(&mut status);
    let mut parser = Parser::new(tokens, IdGenerator::new());
    let stmts = parser.parse(&mut status);
    let mut resolver = Resolver::new();
    resolver.resolve(&stmts, &mut interpreter, &mut status);
    assert!(!status.had_compile_error);
    (interpreter, stmts)
}

#[test]
fn methods_are_found_along_the_superclass_chain() {
    let (mut interpreter, stmts) =
        program("class A { a() {} b() {} } class B < A { b() {} init(x, y) {} } let o = B(1, 2);");
    assert!(interpreter.interpret(&stmts).is_ok());
    let classes = &interpreter.heap.classes;
    assert_eq!(classes.len(), 2);
    assert_eq!(*classes[0].name, b"A".to_vec());
    assert_eq!(classes[1].superclass, Some(0));
    let a_in_b = LaxClass::find_method(classes, 1, b"a").unwrap();
    let b_in_b = LaxClass::find_method(classes, 1, b"b").unwrap();
    let b_in_a = LaxClass::find_method(classes, 0, b"b").unwrap();
    assert_eq!(a_in_b.arity(), 0);
    assert_ne!(b_in_b.closure, b_in_a.closure);
    assert!(LaxClass::find_method(classes, 0, b"init").is_none());
    assert!(LaxClass::find_method(classes, 1, b"none").is_none());
    assert!(LaxClass::find_method(classes, 5, b"a").is_none());
    let init = LaxClass::find_method(classes, 1, b"init").unwrap();
    assert!(init.is_init);
    assert!(!b_in_b.is_init);
    assert_eq!(init.arity(), 2);
    assert_eq!(interpreter.heap.arity(&Callable::LaxClass(1)), 2);
    assert_eq!(interpreter.heap.arity(&Callable::LaxClass(0)), 0);
    assert_eq!(interpreter.heap.objects.len(), 1);
    assert_eq!(interpreter.heap.objects[0].class, 1);
}

#[test]
fn binding_makes_a_scope_that_holds_this() {
    let (mut interpreter, stmts) = program("class A { m() {} } let o = A();");
    assert!(interpreter.interpret(&stmts).is_ok());
    let method = LaxClass::find_method(&interpreter.heap.classes, 0, b"m").unwrap();
    let scopes = interpreter.heap.environments.len();
    let bound = method.bind(&mut interpreter.heap, Value::LaxObject(0));
    assert_eq!(bound.closure, scopes);
    assert_eq!(interpreter.heap.environments.len(), scopes + 1);
    assert_eq!(interpreter.heap.environments[scopes].enclosing, Some(method.closure));
    let this = token("this", 1);
    assert!(matches!(
        Environment::get_at(&interpreter.heap.environments, bound.closure, 0, &this),
        Ok(Value::LaxObject(0))
    ));
    let m = token("m", 1);
    let functions = interpreter.heap.functions.len();
    match LaxObject::get(&mut interpreter, 0, &m).unwrap() {
        Value::Callable(Callable::LaxFn(f)) => assert_eq!(f, functions),
        other => panic!("{:?}", other),
    }
    let mut object = LaxObject::new(0);
    object.set(&m, Value::Bool(true));
    assert!(object.fields.contains_key(b"m"));
}

#[test]
fn scopes_of_blocks_and_calls_are_given_up() {
    let (mut interpreter, stmts) = program(
        "fn inc(n) { return n + 1; }\nlet i = 0; while (i < 20000) { { i = inc(i); } }\nprint i;",
    );
    assert!(interpreter.interpret(&stmts).is_ok());
    assert_eq!(interpreter.heap.environments.len(), 2);
    match &interpreter.take_output()[0] {
        Printed::Number(bits) => assert_eq!(f64::from_bits(*bits), 20000.0),
        Printed::Text(_) => panic!("not a number"),
    }
    assert!(interpreter.take_output().is_empty());
}

#[test]
fn scopes_that_closures_hold_are_kept() {
    let (mut interpreter, stmts) = program(
        "let f; { let a = 1; fn g() { return a; } f = g; }\n{ let b = 2; }\nprint f();",
    );
    assert!(interpreter.interpret(&stmts).is_ok());
    assert_eq!(interpreter.heap.environments.len(), 3);
    match &interpreter.take_output()[0] {
        Printed::Number(bits) => assert_eq!(f64::from_bits(*bits), 1.0),
        Printed::Text(_) => panic!("not a number"),
    }
}

#[test]
fn kinds_of_function_are_told_apart() {
    assert_ne!(FuncType::Function, FuncType::Method);
    assert_ne!(FuncType::Initializer, FuncType::Toplevel);
}

fn assert_well_formed(interpreter: &Interpreter) {
    let heap = &interpreter.heap;
    let scopes = heap.environments.len();
    assert!(interpreter.environment < scopes);
    assert!(interpreter.globals < scopes);
    assert!(heap.environments[interpreter.globals].values.values.contains_key(b"clock"));
    for (at, scope) in heap.environments.iter().enumerate() {
        match scope.enclosing {
            Some(outer) => assert!(outer < at),
            None => assert_eq!(at, interpreter.globals),
        }
        assert!(Environment::defining_scope(&heap.environments, at, b"clock").is_some());
    }
    for function in &heap.functions {
        assert!(function.closure < scopes);
    }
    for class in &heap.classes {
        for entry in &class.methods.entries {
            assert!(entry.value.closure < scopes);
            assert_eq!(entry.value.declaration.token.lexeme, entry.name);
            assert_eq!(entry.value.is_init, *entry.name == b"init".to_vec());
        }
    }
}

#[test]
fn states_stay_well_formed() {
    assert_well_formed(&Interpreter::new());
    for source in [
        "fn make() { let i = 0; fn inc() { i = i + 1; return i; } return inc; }\nlet c = make(); print c(); { let d = make(); print d(); }",
        "class A { init() { this.n = 1; } m() { return this.n; } }\nclass B < A { m() { return super.m() + 1; } }\nlet b = B(); print b.m(); let m = b.m; print m();",
        "let i = 0; while (i < 10) { { let j = i; i = j + 1; } }\nfn f(n) { if (n > 0) { return f(n - 1); } return n; }\nprint f(20);",
        "{ let a = 1; { fn g() { return a; } print g(); } print -nil; }",
        "clock = 1; print clock;",
    ] {
        let (mut interpreter, stmts) = program(source);
        let _ = interpreter.interpret(&stmts);
        assert_well_formed(&interpreter);
    }
}
