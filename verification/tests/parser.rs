use lax::ast::expr::Expr;
use lax::ast::expr::IdGenerator;
use lax::ast::list::List;
use lax::ast::parser::Parser;
use lax::ast::stmt::Stmt;
use lax::error::ErrorStatus;
use lax::scanner::Scanner;
use lax::token::TokenType;
use lax::token::Value;

fn parse(source: &str) -> (Vec<Stmt>, Vec<String>, IdGenerator) {
    let mut status = ErrorStatus::new();
    let mut scanner = Scanner::new(source.to_string());
    let tokens = scanner.scan_tokens(&mut status);
    let mut parser = Parser::new(tokens, IdGenerator::new());
    let stmts = parser.parse(&mut status);
    let reports = status.reports.iter().map(|d| String::from_utf8(d.to_text()).unwrap()).collect();
    (stmts, reports, parser.ids)
}

fn items<T>(list: &List<T>) -> Vec<&T> {
    let mut out = Vec::new();
    let mut rest = list;
    while let List::Cons(head, tail) = rest {
        out.push(&**head);
        rest = tail;
    }
    out
}

fn number(bits: u64) -> f64 {
    f64::from_bits(bits)
}

/// A parenthesized form of an expression, with the identifier of each node.
fn show(expr: &Expr) -> String {
    match expr {
        Expr::Binary(e) => {
            format!("({} {} {})#{}", String::from_utf8_lossy(&e.operator.lexeme), show(&e.left), show(&e.right), e.id)
        }
        Expr::Logical(e) => {
            format!("[{} {} {}]#{}", String::from_utf8_lossy(&e.operator.lexeme), show(&e.left), show(&e.right), e.id)
        }
        Expr::Grouping(e) => format!("(group {})#{}", show(&e.expr), e.id),
        Expr::Literal(e) => match &e.value {
            Value::Num(bits) => format!("{}#{}", number(*bits), e.id),
            Value::String(s) => format!("{:?}#{}", String::from_utf8_lossy(s), e.id),
            Value::Bool(b) => format!("{}#{}", b, e.id),
            Value::Nil => format!("nil#{}", e.id),
            _ => panic!("literal of another kind"),
        },
        Expr::Unary(e) => format!("({} {})#{}", String::from_utf8_lossy(&e.operator.lexeme), show(&e.right), e.id),
        Expr::Var(e) => format!("{}#{}", String::from_utf8_lossy(&e.token.lexeme), e.id),
        Expr::Assign(e) => format!("(= {} {})#{}", String::from_utf8_lossy(&e.token.lexeme), show(&e.value), e.id),
        Expr::Call(e) => {
            let args: Vec<String> = items(&e.args).into_iter().map(show).collect();
            format!("(call {} [{}])#{}", show(&e.callee), args.join(" "), e.id)
        }
        Expr::Get(e) => format!("(. {} {})#{}", show(&e.object), String::from_utf8_lossy(&e.token.lexeme), e.id),
        Expr::SetField(e) => format!(
            "(.= {} {} {})#{}",
            show(&e.object),
            String::from_utf8_lossy(&e.token.lexeme),
            show(&e.value),
            e.id
        ),
        Expr::This(e) => format!("this#{}", e.id),
        Expr::Super(e) => format!("(super {})#{}", String::from_utf8_lossy(&e.method.lexeme), e.id),
    }
}

fn expression(source: &str) -> String {
    let (stmts, reports, _) = parse(source);
    assert_eq!(reports, Vec::<String>::new());
    assert_eq!(stmts.len(), 1);
    match &stmts[0] {
        Stmt::StmtExpr(s) => show(&s.expr),
        _ => panic!("not an expression statement"),
    }
}

#[test]
fn precedence_and_identifiers() {
    assert_eq!(expression("(1 + 2) * 3 - 4 / 2;"), "(- (* (group (+ 1#0 2#1)#2)#3 3#4)#5 (/ 4#6 2#7)#8)#9");
    assert_eq!(expression("1 + 2 * 3;"), "(+ 1#0 (* 2#1 3#2)#3)#4");
    assert_eq!(expression("1 < 2 == 3 >= 4;"), "(== (< 1#0 2#1)#2 (>= 3#3 4#4)#5)#6");
    assert_eq!(expression("!-a;"), "(! (- a#0)#1)#2");
}

#[test]
fn binary_operators_associate_to_the_left() {
    assert_eq!(expression("1 - 2 - 3;"), "(- (- 1#0 2#1)#2 3#3)#4");
    assert_eq!(expression("a or b or c;"), "[or [or a#0 b#1]#2 c#3]#4");
    assert_eq!(expression("a or b and c;"), "[or a#0 [and b#1 c#2]#3]#4");
    assert_eq!(expression("8 / 4 / 2;"), "(/ (/ 8#0 4#1)#2 2#3)#4");
}

#[test]
fn assignment_associates_to_the_right() {
    assert_eq!(expression("a = b = 1;"), "(= a (= b 1#2)#3)#4");
    assert_eq!(expression("a.b.c = 1;"), "(.= (. a#0 b)#1 c 1#3)#4");
}

#[test]
fn calls_and_properties() {
    assert_eq!(expression("f(1, x)(2).g;"), "(. (call (call f#0 [1#1 x#2])#3 [2#4])#5 g)#6");
    assert_eq!(expression("f();"), "(call f#0 [])#1");
    assert_eq!(expression("this.x;"), "(. this#0 x)#1");
    assert_eq!(expression("super.m();"), "(call (super m)#0 [])#1");
    assert_eq!(expression("\"s\" + nil == true;"), "(== (+ \"s\"#0 nil#1)#2 true#3)#4");
}

#[test]
fn identifiers_go_on_from_parse_to_parse() {
    let mut status = ErrorStatus::new();
    let mut scanner = Scanner::new("a;".to_string());
    let tokens = scanner.scan_tokens(&mut status);
    let mut ids = IdGenerator::new();
    assert_eq!(ids.generate_id(), 0);
    assert_eq!(ids.generate_id(), 1);
    let mut parser = Parser::new(tokens, ids);
    let stmts = parser.parse(&mut status);
    match &stmts[0] {
        Stmt::StmtExpr(s) => assert_eq!(show(&s.expr), "a#2"),
        _ => panic!("not an expression statement"),
    }
    assert_eq!(parser.ids.next_id, 3);
    let mut last = IdGenerator { next_id: u64::MAX };
    assert_eq!(last.generate_id(), u64::MAX);
    assert_eq!(last.generate_id(), 0);
}

#[test]
fn for_is_a_while_in_blocks() {
    let (stmts, reports, _) = parse("for (let i = 0; i < 3; i = i + 1) print i;");
    assert_eq!(reports, Vec::<String>::new());
    let outer = match &stmts[0] {
        Stmt::Block(b) => items(&b.stmts),
        _ => panic!("not a block"),
    };
    assert_eq!(outer.len(), 2);
    assert!(matches!(outer[0], Stmt::Let(_)));
    let repeated = match outer[1] {
        Stmt::While(w) => w,
        _ => panic!("not a loop"),
    };
    assert_eq!(repeated.keyword.token_type, TokenType::For);
    assert_eq!(show(&repeated.condition), "(< i#1 3#2)#3");
    let body = match &*repeated.body {
        Stmt::Block(b) => items(&b.stmts),
        _ => panic!("not a block"),
    };
    assert_eq!(body.len(), 2);
    assert!(matches!(body[0], Stmt::Print(_)));
    match body[1] {
        Stmt::StmtExpr(s) => assert_eq!(show(&s.expr), "(= i (+ i#5 1#6)#7)#8"),
        _ => panic!("not an expression statement"),
    }
}

#[test]
fn for_without_clauses_loops_on_true() {
    let (stmts, reports, _) = parse("for (;;) print 1;");
    assert_eq!(reports, Vec::<String>::new());
    match &stmts[0] {
        Stmt::While(w) => {
            assert_eq!(show(&w.condition), "true#0");
            assert!(matches!(&*w.body, Stmt::Print(_)));
        }
        _ => panic!("not a loop"),
    }
}

#[test]
fn declarations() {
    let (stmts, reports, _) = parse(
        "let a; let b = 1; fn f(x, y) { return x; } class A {} class B < A { m() {} init(a) {} } while (a) {} if (a) b; else { }",
    );
    assert_eq!(reports, Vec::<String>::new());
    assert_eq!(stmts.len(), 7);
    match &stmts[0] {
        Stmt::Let(l) => assert!(l.initializer.is_none()),
        _ => panic!("not a variable"),
    }
    match &stmts[2] {
        Stmt::Func(f) => {
            assert_eq!(*f.token.lexeme, b"f".to_vec());
            let params: Vec<Vec<u8>> = items(&f.params).iter().map(|p| (*p.lexeme).clone()).collect();
            assert_eq!(params, vec![b"x".to_vec(), b"y".to_vec()]);
            assert_eq!(f.params.len(), 2);
            assert_eq!(items(&f.body).len(), 1);
        }
        _ => panic!("not a function"),
    }
    match &stmts[3] {
        Stmt::Class(c) => {
            assert!(c.superclass.is_none());
            assert_eq!(items(&c.methods).len(), 0);
        }
        _ => panic!("not a class"),
    }
    match &stmts[4] {
        Stmt::Class(c) => {
            assert_eq!(*c.superclass.as_ref().unwrap().token.lexeme, b"A".to_vec());
            let names: Vec<Vec<u8>> = items(&c.methods).iter().map(|m| (*m.token.lexeme).clone()).collect();
            assert_eq!(names, vec![b"m".to_vec(), b"init".to_vec()]);
        }
        _ => panic!("not a class"),
    }
    match &stmts[5] {
        Stmt::While(w) => assert_eq!(w.keyword.token_type, TokenType::While),
        _ => panic!("not a loop"),
    }
    match &stmts[6] {
        Stmt::If(i) => assert!(i.else_body.is_some()),
        _ => panic!("not a condition"),
    }
}

#[test]
fn return_with_and_without_a_value() {
    let (stmts, reports, _) = parse("fn f() { return; return 1; }");
    assert_eq!(reports, Vec::<String>::new());
    match &stmts[0] {
        Stmt::Func(f) => {
            let body = items(&f.body);
            match body[0] {
                Stmt::Return(r) => assert!(r.value.is_none()),
                _ => panic!("not a return"),
            }
            match body[1] {
                Stmt::Return(r) => assert!(r.value.is_some()),
                _ => panic!("not a return"),
            }
        }
        _ => panic!("not a function"),
    }
}

fn first_report(source: &str) -> String {
    let (_, reports, _) = parse(source);
    reports.into_iter().next().expect("a report")
}

#[test]
fn each_missing_token_has_its_message() {
    assert_eq!(first_report("if 1"), "[line 1] Error at '1': Expect '(' after 'if'.");
    assert_eq!(first_report("if (1 2"), "[line 1] Error at '2': Expect ')' after 'if' condition.");
    assert_eq!(first_report("print 1 2;"), "[line 1] Error at '2': Expect ';' after value.");
    assert_eq!(first_report("while 1"), "[line 1] Error at '1': Expect '(' after while.");
    assert_eq!(first_report("while (1 {"), "[line 1] Error at '{': Expect ')' after condition");
    assert_eq!(first_report("for 1"), "[line 1] Error at '1': Expect '(' after 'for'.");
    assert_eq!(first_report("for (;1 2"), "[line 1] Error at '2': Expect ';' after loop condition.");
    assert_eq!(first_report("for (;;1 2"), "[line 1] Error at '2': Expect ')' after for clauses.");
    assert_eq!(first_report("fn f() { return 1 }"), "[line 1] Error at '}': Expect ';' after return value.");
    assert_eq!(first_report("{ 1;"), "[line 1] Error at end: Expect '}' after a block");
    assert_eq!(first_report("1 2"), "[line 1] Error at '2': Expect ';' after expression");
    assert_eq!(first_report("let 1"), "[line 1] Error at '1': Expect variable name.");
    assert_eq!(first_report("let a 1"), "[line 1] Error at '1': Expect ';' after variable declaration.");
    assert_eq!(first_report("let a = 1 1"), "[line 1] Error at '1': Expect ';' after variable declaration.");
    assert_eq!(first_report("fn 1"), "[line 1] Error at '1': Expect Function name.");
    assert_eq!(first_report("class A { 1 }"), "[line 1] Error at '1': Expect Method name.");
    assert_eq!(first_report("fn f 1"), "[line 1] Error at '1': Expect '(' after function name.");
    assert_eq!(first_report("fn f(1"), "[line 1] Error at '1': Expect parameter name.");
    assert_eq!(first_report("fn f(a 1"), "[line 1] Error at '1': Expect ')' after parameters.");
    assert_eq!(first_report("fn f() 1"), "[line 1] Error at '1': Expect '{' before Function body");
    assert_eq!(first_report("class A { m() 1 }"), "[line 1] Error at '1': Expect '{' before Method body");
    assert_eq!(first_report("class 1"), "[line 1] Error at '1': Expect class name.");
    assert_eq!(first_report("class A < 1"), "[line 1] Error at '1': Expect superclass name.");
    assert_eq!(first_report("class A 1"), "[line 1] Error at '1': Expect '{' before class body.");
    assert_eq!(first_report("class A { m() {}"), "[line 1] Error at end: Expect '}' after class body.");
    assert_eq!(first_report("a.1"), "[line 1] Error at '1': Expect property name after '.'");
    assert_eq!(first_report("f(1 2"), "[line 1] Error at '2': Expected ')' after arguments.");
    assert_eq!(first_report("(1 2"), "[line 1] Error at '2': Expect ')' after expression.");
    assert_eq!(first_report("super 1"), "[line 1] Error at '1': Expect '.' after 'super'.");
    assert_eq!(first_report("super.1"), "[line 1] Error at '1': Expect superclass method name.");
    assert_eq!(first_report("+"), "[line 1] Error at '+': Expected expression.");
}

fn call_with(arguments: usize) -> String {
    let args: Vec<String> = (0..arguments).map(|i| i.to_string()).collect();
    format!("f({});", args.join(", "))
}

fn function_with(parameters: usize) -> String {
    let params: Vec<String> = (0..parameters).map(|i| format!("p{}", i)).collect();
    format!("fn f({}) {{}}", params.join(", "))
}

#[test]
fn at_most_255_arguments_and_parameters() {
    let (stmts, reports, _) = parse(&call_with(255));
    assert_eq!(reports, Vec::<String>::new());
    match &stmts[0] {
        Stmt::StmtExpr(s) => match &s.expr {
            Expr::Call(c) => assert_eq!(c.args.len(), 255),
            _ => panic!("not a call"),
        },
        _ => panic!("not an expression statement"),
    }
    let (_, reports, _) = parse(&call_with(256));
    assert_eq!(reports, vec!["[line 1] Error at ')': Can't have more than 255 arguments."]);
    let (stmts, reports, _) = parse(&function_with(255));
    assert_eq!(reports, Vec::<String>::new());
    match &stmts[0] {
        Stmt::Func(f) => assert_eq!(f.params.len(), 255),
        _ => panic!("not a function"),
    }
    let (_, reports, _) = parse(&function_with(256));
    assert_eq!(reports, vec!["[line 1] Error at 'p255': Can't have more than 255 parameters."]);
}

#[test]
fn parsing_resumes_behind_a_semicolon_or_at_a_statement() {
    let (stmts, reports, _) = parse("1 + * 2; 3; + 4 print 5; ) 6 let a;");
    assert_eq!(
        reports,
        vec![
            "[line 1] Error at '*': Expected expression.",
            "[line 1] Error at '+': Expected expression.",
            "[line 1] Error at ')': Expected expression.",
        ]
    );
    assert_eq!(stmts.len(), 3);
    assert!(matches!(stmts[0], Stmt::StmtExpr(_)));
    assert!(matches!(stmts[1], Stmt::Print(_)));
    assert!(matches!(stmts[2], Stmt::Let(_)));
    let (stmts, reports, _) = parse("1 +; 2; print 3;");
    assert_eq!(reports, vec!["[line 1] Error at ';': Expected expression."]);
    assert_eq!(stmts.len(), 1);
    assert!(matches!(stmts[0], Stmt::Print(_)));
}

#[test]
fn an_empty_text_is_an_empty_program() {
    let (stmts, reports, ids) = parse("");
    assert!(stmts.is_empty());
    assert!(reports.is_empty());
    assert_eq!(ids.next_id, 0);
}

#[test]
fn lists_keep_their_order() {
    let list = List::from_vec(vec![1u8, 2, 3]);
    assert_eq!(items(&list), vec![&1, &2, &3]);
    assert_eq!(list.len(), 3);
    assert_eq!(items(&list.reverse()), vec![&3, &2, &1]);
    let empty: List<u8> = List::new();
    assert_eq!(empty.len(), 0);
    assert_eq!(items(&empty.push_front(9)), vec![&9]);
}

fn collect_expr(expr: &Expr, ids: &mut Vec<u64>) {
    match expr {
        Expr::Binary(e) => {
            collect_expr(&e.left, ids);
            collect_expr(&e.right, ids);
            ids.push(e.id);
        }
        Expr::Logical(e) => {
            collect_expr(&e.left, ids);
            collect_expr(&e.right, ids);
            ids.push(e.id);
        }
        Expr::Grouping(e) => {
            collect_expr(&e.expr, ids);
            ids.push(e.id);
        }
        Expr::Literal(e) => ids.push(e.id),
        Expr::Unary(e) => {
            collect_expr(&e.right, ids);
            ids.push(e.id);
        }
        Expr::Var(e) => ids.push(e.id),
        Expr::Assign(e) => {
            collect_expr(&e.value, ids);
            ids.push(e.id);
        }
        Expr::Call(e) => {
            collect_expr(&e.callee, ids);
            for arg in items(&e.args) {
                collect_expr(arg, ids);
            }
            ids.push(e.id);
        }
        Expr::Get(e) => {
            collect_expr(&e.object, ids);
            ids.push(e.id);
        }
        Expr::SetField(e) => {
            collect_expr(&e.object, ids);
            collect_expr(&e.value, ids);
            ids.push(e.id);
        }
        Expr::This(e) => ids.push(e.id),
        Expr::Super(e) => ids.push(e.id),
    }
}

fn collect_stmt(stmt: &Stmt, ids: &mut Vec<u64>) {
    match stmt {
        Stmt::StmtExpr(s) => collect_expr(&s.expr, ids),
        Stmt::Print(s) => collect_expr(&s.expr, ids),
        Stmt::Let(s) => {
            if let Some(e) = &s.initializer {
                collect_expr(e, ids);
            }
        }
        Stmt::Block(s) => {
            for inner in items(&s.stmts) {
                collect_stmt(inner, ids);
            }
        }
        Stmt::If(s) => {
            collect_expr(&s.condition, ids);
            collect_stmt(&s.body, ids);
            if let Some(other) = &s.else_body {
                collect_stmt(other, ids);
            }
        }
        Stmt::While(s) => {
            collect_expr(&s.condition, ids);
            collect_stmt(&s.body, ids);
        }
        Stmt::Func(f) => {
            for inner in items(&f.body) {
                collect_stmt(inner, ids);
            }
        }
        Stmt::Return(s) => {
            if let Some(e) = &s.value {
                collect_expr(e, ids);
            }
        }
        Stmt::Class(c) => {
            if let Some(v) = &c.superclass {
                ids.push(v.id);
            }
            for method in items(&c.methods) {
                for inner in items(&method.body) {
                    collect_stmt(inner, ids);
                }
            }
        }
    }
}

#[test]
fn every_expression_has_an_identifier_of_its_own() {
    let (stmts, reports, ids) = parse(
        "class A { init(x) { this.x = x; } get() { return this.x; } }\n\
         class B < A { get() { return super.get() + 1; } }\n\
         fn f(a, b) { for (let i = 0; i < a; i = i + 1) { if (i == b or !b) print f(i, b - 1); else b = nil; } }\n\
         for (;;) { a.b.c = f(1, (2))(3); }\n\
         let + ; print 1 + 2; while (true and false) {}",
    );
    assert_eq!(reports.len(), 1);
    let mut found = Vec::new();
    for stmt in &stmts {
        collect_stmt(stmt, &mut found);
    }
    assert!(found.len() > 40);
    let mut sorted = found.clone();
    sorted.sort();
    sorted.dedup();
    assert_eq!(sorted.len(), found.len());
    assert!(found.iter().all(|id| *id < ids.next_id));
}

#[test]
fn a_parse_stops_at_the_end_of_the_tokens() {
    for source in ["", "print 1;", "print", "{ { {", "1 + ; ) ) fn", "class A < { } let a = ;"] {
        let mut status = ErrorStatus::new();
        let mut scanner = Scanner::new(source.to_string());
        let tokens = scanner.scan_tokens(&mut status);
        let count = tokens.len();
        let mut parser = Parser::new(tokens, IdGenerator::new());
        parser.parse(&mut status);
        assert_eq!(parser.curr, count - 1, "{}", source);
        assert_eq!(parser.tokens[parser.curr].token_type, TokenType::Eof);
    }
}
