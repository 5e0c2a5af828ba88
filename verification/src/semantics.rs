//! The meaning of programs: what evaluating an expression and executing a
//! statement make of the state of a run.
//!
//! Every function here takes a state and a budget, `fuel`, and says what
//! comes out: the state behind, and the value or the error. One unit of the
//! budget is spent on each call of a function of the program and on each
//! turn of a loop; a run that needs more than it was given ends in an
//! error. The interpreter computes exactly these functions.

use crate::ast::expr::Assign;
use crate::ast::expr::Binary;
use crate::ast::expr::Call;
use crate::ast::expr::Expr;
use crate::ast::expr::Get;
use crate::ast::expr::Grouping;
use crate::ast::expr::Literal;
use crate::ast::expr::Logical;
use crate::ast::expr::SetField;
use crate::ast::expr::Super;
use crate::ast::expr::This;
use crate::ast::expr::Unary;
use crate::ast::expr::Var;
use crate::ast::list::List;
use crate::ast::stmt::Block;
use crate::ast::stmt::Class;
use crate::ast::stmt::Func;
use crate::ast::stmt::If;
use crate::ast::stmt::Let;
use crate::ast::stmt::Print;
use crate::ast::stmt::Return;
use crate::ast::stmt::Stmt;
use crate::ast::stmt::StmtExpr;
use crate::ast::stmt::While;
use crate::callables::callable::Callable;
use crate::callables::callable::Native;
use crate::callables::lax_class::find_method;
use crate::callables::lax_class::LaxClassView;
use crate::callables::lax_functions::LaxFn;
use crate::environment::assign;
use crate::environment::assign_at;
use crate::environment::define;
use crate::environment::EnvironmentView;
use crate::environment::get;
use crate::environment::get_at;
use crate::environment::get_named_at;
use crate::environment::missing_error;
use crate::error::Message;
use crate::error::RuntimeError;
use crate::heap::HeapView;
use crate::heap::PrintedView;
use crate::number::double_difference;
use crate::number::double_eq;
use crate::number::double_le;
use crate::number::double_lt;
use crate::number::double_neg;
use crate::number::double_product;
use crate::number::double_quotient;
use crate::number::double_sum;
use crate::text::bytes_of;
use crate::token::Token;
use crate::token::TokenType;
use crate::token::truthy;
use crate::token::values_equal;
use crate::token::ValueView;
use std::rc::Rc;
use vstd::prelude::*;

verus! {

/// The state of a run: the heap, the outermost scope, the scope that is
/// active, the distances that the resolver found, what was printed, and
/// the time that `clock` tells.
pub struct InterpreterView {
    pub heap: HeapView,
    pub globals: usize,
    pub environment: usize,
    pub locals: Map<u64, usize>,
    pub output: Seq<PrintedView>,
    pub clock: u64,
}

impl InterpreterView {
    pub open spec fn with_heap(self, heap: HeapView) -> InterpreterView {
        InterpreterView { heap, ..self }
    }

    pub open spec fn with_environment(self, environment: usize) -> InterpreterView {
        InterpreterView { environment, ..self }
    }

    /// The state with `name` bound to `value` in the active scope.
    pub open spec fn define(self, name: Seq<u8>, value: ValueView) -> InterpreterView {
        self.with_heap(self.heap.define(self.environment, name, value))
    }

    /// The state with one more line printed.
    pub open spec fn print(self, value: ValueView) -> InterpreterView {
        InterpreterView { output: self.output.push(self.heap.printed(value)), ..self }
    }
}

/// What evaluating an expression yields.
pub struct Evaluation {
    pub state: InterpreterView,
    pub result: Result<ValueView, RuntimeError>,
}

/// What executing a statement yields. A value is the value of a `return`
/// that was met, on its way to the call that it ends.
pub struct Execution {
    pub state: InterpreterView,
    pub result: Result<Option<ValueView>, RuntimeError>,
}

/// What evaluating the arguments of a call yields.
pub struct Arguments {
    pub state: InterpreterView,
    pub result: Result<Seq<ValueView>, RuntimeError>,
}

pub open spec fn value(state: InterpreterView, v: ValueView) -> Evaluation {
    Evaluation { state, result: Ok(v) }
}

pub open spec fn fault(state: InterpreterView, token: Rc<Token>, message: &'static str) -> Evaluation {
    Evaluation { state, result: Err(RuntimeError { token, message: Message::Text(message) }) }
}

pub open spec fn done(state: InterpreterView) -> Execution {
    Execution { state, result: Ok(None) }
}

/// The error of an evaluation as the outcome of a statement.
pub open spec fn failed(e: Evaluation) -> Execution {
    Execution {
        state: e.state,
        result: match e.result {
            Err(error) => Err(error),
            Ok(_) => Ok(None),
        },
    }
}

/// The value of an evaluation that yielded one.
pub open spec fn got(e: Evaluation) -> ValueView {
    match e.result {
        Ok(v) => v,
        Err(_) => ValueView::Nil,
    }
}

/// The value of a variable: at the distance that the resolver found for
/// the expression, or else among the globals.
pub open spec fn lookup_variable(s: InterpreterView, token: Rc<Token>, id: u64) -> Result<
    ValueView,
    RuntimeError,
> {
    if s.locals.contains_key(id) {
        get_at(s.heap.environments, s.environment, s.locals[id], token)
    } else {
        get(s.heap.environments, s.globals, token)
    }
}

/// `-x` of a number, `!x` of any value by its truthiness. `None` where `-`
/// meets a value that is no number.
pub open spec fn unary_value(operator: TokenType, v: ValueView) -> Option<ValueView> {
    if operator == TokenType::Minus {
        match v {
            ValueView::Num(n) => Some(ValueView::Num(double_neg(n))),
            _ => None,
        }
    } else if operator == TokenType::Bang {
        Some(ValueView::Bool(!truthy(v)))
    } else {
        Some(ValueView::Nil)
    }
}

/// What an operator makes of two numbers.
pub open spec fn number_value(operator: TokenType, l: u64, r: u64) -> Result<ValueView, &'static str> {
    match operator {
        TokenType::Plus => Ok(ValueView::Num(double_sum(l, r))),
        TokenType::Minus => Ok(ValueView::Num(double_difference(l, r))),
        TokenType::Star => Ok(ValueView::Num(double_product(l, r))),
        TokenType::Slash => Ok(ValueView::Num(double_quotient(l, r))),
        TokenType::Greater => Ok(ValueView::Bool(double_lt(r, l))),
        TokenType::GreaterEqual => Ok(ValueView::Bool(double_le(r, l))),
        TokenType::Less => Ok(ValueView::Bool(double_lt(l, r))),
        TokenType::LessEqual => Ok(ValueView::Bool(double_le(l, r))),
        TokenType::EqualEqual => Ok(ValueView::Bool(double_eq(l, r))),
        _ => Err("Operator cannot be used on numbers"),
    }
}

/// What an operator makes of two strings.
pub open spec fn string_value(operator: TokenType, l: Seq<u8>, r: Seq<u8>) -> Result<ValueView, &'static str> {
    match operator {
        TokenType::Plus => Ok(ValueView::String(l + r)),
        TokenType::EqualEqual => Ok(ValueView::Bool(l == r)),
        _ => Err("Operator cannot be used on strings"),
    }
}

/// What an operator makes of two values: arithmetic and comparison on two
/// numbers, `+` and `==` on two strings, `==` and `!=` on any other pair.
pub open spec fn binary_value(operator: TokenType, l: ValueView, r: ValueView) -> Result<
    ValueView,
    &'static str,
> {
    match (l, r) {
        (ValueView::Num(a), ValueView::Num(b)) => number_value(operator, a, b),
        (ValueView::String(a), ValueView::String(b)) => string_value(operator, a, b),
        _ => match operator {
            TokenType::EqualEqual => Ok(ValueView::Bool(values_equal(l, r))),
            TokenType::BangEqual => Ok(ValueView::Bool(!values_equal(l, r))),
            _ => Err("Operator cannot be used on values of this type"),
        },
    }
}

/// The scopes with each parameter bound to its argument in the scope at
/// `scope`, from the `i`-th argument on.
pub open spec fn bind_params(
    scopes: Seq<EnvironmentView>,
    scope: usize,
    params: List<Rc<Token>>,
    args: Seq<ValueView>,
    i: int,
) -> Seq<EnvironmentView>
    decreases params,
{
    match params {
        List::Nil => scopes,
        List::Cons(param, rest) => if 0 <= i < args.len() {
            bind_params(define(scopes, scope, param.lexeme@, args[i]), scope, *rest, args, i + 1)
        } else {
            scopes
        },
    }
}

/// The property that `token` names of the object at `object`: a field, or
/// else a method of its class, bound to the object, as a new closure.
pub open spec fn property(s: InterpreterView, object: usize, token: Rc<Token>) -> Evaluation {
    let heap = s.heap;
    if object >= heap.objects.len() {
        fault(s, token, "Only instances have properties.")
    } else if heap.objects[object as int].fields.contains_key(token.lexeme@) {
        value(s, heap.objects[object as int].fields[token.lexeme@])
    } else {
        match find_method(heap.classes, heap.objects[object as int].class, token.lexeme@) {
            Some(method) => value(
                s.with_heap(
                    heap.bind(method, ValueView::LaxObject(object)).with_new_function(heap.bound(method)),
                ),
                ValueView::Callable(Callable::LaxFn(heap.functions.len() as usize)),
            ),
            None => Evaluation {
                state: s,
                result: Err(RuntimeError { token, message: Message::Named("Undefined property '", "'.") }),
            },
        }
    }
}

pub open spec fn visit_literal_expr(s: InterpreterView, expr: Literal) -> Evaluation {
    value(s, expr.value@)
}

pub open spec fn visit_var_expr(s: InterpreterView, expr: Var) -> Evaluation {
    Evaluation { state: s, result: lookup_variable(s, expr.token, expr.id) }
}

pub open spec fn visit_this_expr(s: InterpreterView, expr: This) -> Evaluation {
    Evaluation { state: s, result: lookup_variable(s, expr.keyword, expr.id) }
}

/// `super.method`: the method that the name denotes in the superclass,
/// which is found at the distance that the resolver gave, bound to the
/// object that `this` denotes one scope further in.
pub open spec fn visit_super_expr(s: InterpreterView, expr: Super) -> Evaluation {
    if s.locals.contains_key(expr.id) && s.locals[expr.id] > 0 {
        let distance = s.locals[expr.id];
        match get_at(s.heap.environments, s.environment, distance, expr.keyword) {
            Err(e) => Evaluation { state: s, result: Err(e) },
            Ok(ValueView::Callable(Callable::LaxClass(class))) => match get_named_at(
                s.heap.environments,
                s.environment,
                (distance - 1) as usize,
                bytes_of("this"),
            ) {
                Err(missing) => Evaluation { state: s, result: Err(missing_error(expr.keyword, missing)) },
                Ok(object) => match find_method(s.heap.classes, class, expr.method.lexeme@) {
                    Some(method) => value(
                        s.with_heap(s.heap.bind(method, object).with_new_function(s.heap.bound(method))),
                        ValueView::Callable(Callable::LaxFn(s.heap.functions.len() as usize)),
                    ),
                    None => Evaluation {
                        state: s,
                        result: Err(
                            RuntimeError {
                                token: expr.method,
                                message: Message::Named("Undefined property '", "'."),
                            },
                        ),
                    },
                },
            },
            Ok(_) => fault(s, expr.keyword, "Superclass must be a class."),
        }
    } else {
        Evaluation { state: s, result: get(s.heap.environments, s.globals, expr.keyword) }
    }
}

pub open spec fn evaluate(s: InterpreterView, expr: Expr, fuel: nat) -> Evaluation
    decreases fuel, 1int, expr, 0int,
{
    match expr {
        Expr::Binary(e) => visit_binary_expr(s, e, fuel),
        Expr::Grouping(e) => visit_grouping_expr(s, e, fuel),
        Expr::Literal(e) => visit_literal_expr(s, e),
        Expr::Unary(e) => visit_unary_expr(s, e, fuel),
        Expr::Var(e) => visit_var_expr(s, e),
        Expr::Assign(e) => visit_assign_expr(s, e, fuel),
        Expr::Logical(e) => visit_logical_expr(s, e, fuel),
        Expr::Call(e) => visit_call_expr(s, e, fuel),
        Expr::Get(e) => visit_get_expr(s, e, fuel),
        Expr::SetField(e) => visit_set_expr(s, e, fuel),
        Expr::This(e) => visit_this_expr(s, e),
        Expr::Super(e) => visit_super_expr(s, e),
    }
}

pub open spec fn visit_grouping_expr(s: InterpreterView, expr: Grouping, fuel: nat) -> Evaluation
    decreases fuel, 1int, expr, 0int,
{
    evaluate(s, *expr.expr, fuel)
}

pub open spec fn visit_unary_expr(s: InterpreterView, expr: Unary, fuel: nat) -> Evaluation
    decreases fuel, 1int, expr, 0int,
{
    let right = evaluate(s, *expr.right, fuel);
    if right.result is Err {
        right
    } else {
        match unary_value(expr.operator.token_type, got(right)) {
            Some(v) => value(right.state, v),
            None => fault(right.state, expr.operator, "Operand must be a number."),
        }
    }
}

/// Left operand, then right operand, then the operator on the two values.
pub open spec fn visit_binary_expr(s: InterpreterView, expr: Binary, fuel: nat) -> Evaluation
    decreases fuel, 1int, expr, 0int,
{
    let left = evaluate(s, *expr.left, fuel);
    if left.result is Err {
        left
    } else {
        let right = evaluate(left.state, *expr.right, fuel);
        if right.result is Err {
            right
        } else {
            match binary_value(expr.operator.token_type, got(left), got(right)) {
                Ok(v) => value(right.state, v),
                Err(message) => fault(right.state, expr.operator, message),
            }
        }
    }
}

/// `or` yields its left operand where that is truthy, `and` where it is
/// falsy; the right operand is evaluated only otherwise.
pub open spec fn visit_logical_expr(s: InterpreterView, expr: Logical, fuel: nat) -> Evaluation
    decreases fuel, 1int, expr, 0int,
{
    let left = evaluate(s, *expr.left, fuel);
    if left.result is Err {
        left
    } else if expr.operator.token_type == TokenType::Or && truthy(got(left)) {
        left
    } else if expr.operator.token_type != TokenType::Or && !truthy(got(left)) {
        left
    } else {
        evaluate(left.state, *expr.right, fuel)
    }
}

pub open spec fn visit_assign_expr(s: InterpreterView, expr: Assign, fuel: nat) -> Evaluation
    decreases fuel, 1int, expr, 0int,
{
    let assigned = evaluate(s, *expr.value, fuel);
    if assigned.result is Err {
        assigned
    } else {
        let s1 = assigned.state;
        let scopes = if s1.locals.contains_key(expr.id) {
            assign_at(s1.heap.environments, s1.environment, s1.locals[expr.id], expr.token, got(assigned))
        } else {
            assign(s1.heap.environments, s1.globals, expr.token, got(assigned))
        };
        match scopes {
            Ok(after) => value(s1.with_heap(s1.heap.with_environments(after)), got(assigned)),
            Err(e) => Evaluation { state: s1, result: Err(e) },
        }
    }
}

/// The arguments from the first of `args` on, behind those in `found`.
pub open spec fn evaluate_args(s: InterpreterView, args: List<Expr>, fuel: nat, found: Seq<ValueView>) -> Arguments
    decreases fuel, 1int, args, 0int,
{
    match args {
        List::Nil => Arguments { state: s, result: Ok(found) },
        List::Cons(first, rest) => {
            let arg = evaluate(s, *first, fuel);
            match arg.result {
                Err(e) => Arguments { state: arg.state, result: Err(e) },
                Ok(v) => evaluate_args(arg.state, *rest, fuel, found.push(v)),
            }
        },
    }
}

/// The callee, which must be callable; then the arguments, left to right,
/// of which there must be as many as the callee takes; then the call.
pub open spec fn visit_call_expr(s: InterpreterView, expr: Call, fuel: nat) -> Evaluation
    decreases fuel, 1int, expr, 0int,
{
    let callee = evaluate(s, *expr.callee, fuel);
    match callee.result {
        Err(_) => callee,
        Ok(ValueView::Callable(function)) => {
            let args = evaluate_args(callee.state, expr.args, fuel, Seq::empty());
            match args.result {
                Err(e) => Evaluation { state: args.state, result: Err(e) },
                Ok(values) => if values.len() != args.state.heap.arity(function) {
                    Evaluation {
                        state: args.state,
                        result: Err(
                            RuntimeError {
                                token: expr.paren,
                                message: Message::Arity(
                                    args.state.heap.arity(function),
                                    values.len() as usize,
                                ),
                            },
                        ),
                    }
                } else {
                    call_value(args.state, function, values, expr.paren, fuel)
                },
            }
        },
        Ok(_) => fault(callee.state, expr.paren, "Can only call functions and classes."),
    }
}

pub open spec fn visit_get_expr(s: InterpreterView, expr: Get, fuel: nat) -> Evaluation
    decreases fuel, 1int, expr, 0int,
{
    let object = evaluate(s, *expr.object, fuel);
    match object.result {
        Err(_) => object,
        Ok(ValueView::LaxObject(o)) => property(object.state, o, expr.token),
        Ok(_) => fault(object.state, expr.token, "Only instances have properties."),
    }
}

/// The object first, then the value, which becomes the field's.
pub open spec fn visit_set_expr(s: InterpreterView, expr: SetField, fuel: nat) -> Evaluation
    decreases fuel, 1int, expr, 0int,
{
    let object = evaluate(s, *expr.object, fuel);
    match object.result {
        Err(_) => object,
        Ok(ValueView::LaxObject(o)) => {
            let assigned = evaluate(object.state, *expr.value, fuel);
            if assigned.result is Err {
                assigned
            } else {
                value(
                    assigned.state.with_heap(
                        assigned.state.heap.set_field(o, expr.token.lexeme@, got(assigned)),
                    ),
                    got(assigned),
                )
            }
        },
        Ok(_) => fault(object.state, expr.token, "Only instances have fields."),
    }
}

/// The call of a callable with as many arguments as it takes.
pub open spec fn call_value(
    s: InterpreterView,
    callee: Callable,
    args: Seq<ValueView>,
    paren: Rc<Token>,
    fuel: nat,
) -> Evaluation
    decreases fuel, 0int, paren, 3int,
{
    match callee {
        Callable::NativeFn(native) => match native.func {
            Native::Clock => value(s, ValueView::Num(s.clock)),
        },
        Callable::LaxFn(f) => if f < s.heap.functions.len() {
            call_function(s, s.heap.functions[f as int], args, paren, fuel)
        } else {
            fault(s, paren, "Can only call functions and classes.")
        },
        Callable::LaxClass(class) => instantiate(s, class, args, paren, fuel),
    }
}

/// The call of a closure: a new scope inside the closure's, with the
/// parameters bound to the arguments; the body, executed in it; and as the
/// result what the body returned, or `nil`. An initializer yields what
/// `this` denotes in its closure's scope, whatever its body returned. The
/// new scope is given up behind the body, unless a closure or a class was
/// made meanwhile.
pub open spec fn call_function(
    s: InterpreterView,
    function: LaxFn,
    args: Seq<ValueView>,
    paren: Rc<Token>,
    fuel: nat,
) -> Evaluation
    decreases fuel, 0int, paren, 1int,
{
    if fuel == 0 {
        fault(s, paren, "Too many nested calls.")
    } else {
        let scope = s.heap.environments.len() as usize;
        let entered = s.heap.with_new_environment(Some(function.closure));
        let bound = entered.with_environments(
            bind_params(entered.environments, scope, function.declaration.params, args, 0),
        );
        let body = released(
            s,
            execute_block(s.with_heap(bound), function.declaration.body, scope, (fuel - 1) as nat),
        );
        match body.result {
            Err(e) => Evaluation { state: body.state, result: Err(e) },
            Ok(returned) => if function.is_init {
                match get_named_at(body.state.heap.environments, function.closure, 0, bytes_of("this")) {
                    Ok(object) => value(body.state, object),
                    Err(missing) => Evaluation {
                        state: body.state,
                        result: Err(missing_error(function.declaration.token, missing)),
                    },
                }
            } else {
                match returned {
                    Some(v) => value(body.state, v),
                    None => value(body.state, ValueView::Nil),
                }
            },
        }
    }
}

/// The call of a class: a new object of it; the initializer, if the class
/// has one, called on the object with the arguments; and as the result the
/// object.
pub open spec fn instantiate(
    s: InterpreterView,
    class: usize,
    args: Seq<ValueView>,
    paren: Rc<Token>,
    fuel: nat,
) -> Evaluation
    decreases fuel, 0int, paren, 2int,
{
    let object = ValueView::LaxObject(s.heap.objects.len() as usize);
    let made = s.heap.with_new_object(class);
    match find_method(made.classes, class, bytes_of("init")) {
        Some(init) => {
            let called = call_function(s.with_heap(made.bind(init, object)), made.bound(init), args, paren, fuel);
            match called.result {
                Err(_) => called,
                Ok(_) => value(called.state, object),
            }
        },
        None => value(s.with_heap(made), object),
    }
}

pub open spec fn execute(s: InterpreterView, stmt: Stmt, fuel: nat) -> Execution
    decreases fuel, 3int, stmt, 0int,
{
    match stmt {
        Stmt::StmtExpr(st) => visit_expr_stmt(s, st, fuel),
        Stmt::Print(st) => visit_print_stmt(s, st, fuel),
        Stmt::Let(st) => visit_let_stmt(s, st, fuel),
        Stmt::Block(st) => visit_block_stmt(s, st, fuel),
        Stmt::If(st) => visit_if_stmt(s, st, fuel),
        Stmt::While(st) => visit_while_stmt(s, st, fuel),
        Stmt::Func(st) => visit_func_stmt(s, st),
        Stmt::Return(st) => visit_return_stmt(s, st, fuel),
        Stmt::Class(st) => visit_class_stmt(s, st),
    }
}

pub open spec fn visit_expr_stmt(s: InterpreterView, stmt: StmtExpr, fuel: nat) -> Execution
    decreases fuel, 2int, stmt, 0int,
{
    let e = evaluate(s, stmt.expr, fuel);
    if e.result is Err {
        failed(e)
    } else {
        done(e.state)
    }
}

pub open spec fn visit_print_stmt(s: InterpreterView, stmt: Print, fuel: nat) -> Execution
    decreases fuel, 2int, stmt, 0int,
{
    let e = evaluate(s, stmt.expr, fuel);
    if e.result is Err {
        failed(e)
    } else {
        done(e.state.print(got(e)))
    }
}

pub open spec fn visit_let_stmt(s: InterpreterView, stmt: Let, fuel: nat) -> Execution
    decreases fuel, 2int, stmt, 0int,
{
    match stmt.initializer {
        Some(init) => {
            let e = evaluate(s, init, fuel);
            if e.result is Err {
                failed(e)
            } else {
                done(e.state.define(stmt.token.lexeme@, got(e)))
            }
        },
        None => done(s.define(stmt.token.lexeme@, ValueView::Nil)),
    }
}

/// The outcome with the scopes given up that were added since the state
/// `before`, where nothing can refer to them.
pub open spec fn released(before: InterpreterView, r: Execution) -> Execution {
    Execution {
        state: r.state.with_heap(
            r.state.heap.released(
                before.heap.functions.len(),
                before.heap.classes.len(),
                before.heap.environments.len(),
            ),
        ),
        result: r.result,
    }
}

/// The statements, in a new scope inside the active one. The scope is
/// given up behind them, unless a closure or a class was made meanwhile.
pub open spec fn visit_block_stmt(s: InterpreterView, stmt: Block, fuel: nat) -> Execution
    decreases fuel, 3int, stmt, 0int,
{
    released(
        s,
        execute_block(
            s.with_heap(s.heap.with_new_environment(Some(s.environment))),
            stmt.stmts,
            s.heap.environments.len() as usize,
            fuel,
        ),
    )
}

/// The statements, with the scope at `scope` as the active one; behind
/// them, the scope that was active before is active again.
pub open spec fn execute_block(s: InterpreterView, stmts: List<Stmt>, scope: usize, fuel: nat) -> Execution
    decreases fuel, 3int, stmts, 1int,
{
    let r = execute_stmts(s.with_environment(scope), stmts, fuel);
    Execution { state: r.state.with_environment(s.environment), result: r.result }
}

/// The statements in order, up to the first that fails or returns.
pub open spec fn execute_stmts(s: InterpreterView, stmts: List<Stmt>, fuel: nat) -> Execution
    decreases fuel, 3int, stmts, 0int,
{
    match stmts {
        List::Nil => done(s),
        List::Cons(first, rest) => {
            let r = execute(s, *first, fuel);
            match r.result {
                Ok(None) => execute_stmts(r.state, *rest, fuel),
                _ => r,
            }
        },
    }
}

pub open spec fn visit_if_stmt(s: InterpreterView, stmt: If, fuel: nat) -> Execution
    decreases fuel, 3int, stmt, 0int,
{
    let condition = evaluate(s, stmt.condition, fuel);
    if condition.result is Err {
        failed(condition)
    } else if truthy(got(condition)) {
        execute(condition.state, *stmt.body, fuel)
    } else {
        match stmt.else_body {
            Some(other) => execute(condition.state, *other, fuel),
            None => done(condition.state),
        }
    }
}

/// The condition, and while it is truthy the body and the condition again.
/// Each turn after the first spends one unit of the budget.
pub open spec fn visit_while_stmt(s: InterpreterView, stmt: While, fuel: nat) -> Execution
    decreases fuel, 3int, stmt, 0int,
{
    let condition = evaluate(s, stmt.condition, fuel);
    if condition.result is Err {
        failed(condition)
    } else if !truthy(got(condition)) {
        done(condition.state)
    } else {
        let body = execute(condition.state, *stmt.body, fuel);
        match body.result {
            Ok(None) => if fuel == 0 {
                Execution {
                    state: body.state,
                    result: Err(
                        RuntimeError { token: stmt.keyword, message: Message::Text("Too many iterations.") },
                    ),
                }
            } else {
                visit_while_stmt(body.state, stmt, (fuel - 1) as nat)
            },
            _ => body,
        }
    }
}

/// A new closure over the active scope, bound to the function's name.
pub open spec fn visit_func_stmt(s: InterpreterView, stmt: Rc<Func>) -> Execution {
    done(
        s.with_heap(
            s.heap.with_new_function(LaxFn { declaration: stmt, closure: s.environment, is_init: false }),
        ).define(stmt.token.lexeme@, ValueView::Callable(Callable::LaxFn(s.heap.functions.len() as usize))),
    )
}

/// The value behind `return`, or `nil` where there is none.
pub open spec fn visit_return_stmt(s: InterpreterView, stmt: Return, fuel: nat) -> Execution
    decreases fuel, 2int, stmt, 0int,
{
    match stmt.value {
        Some(expr) => {
            let e = evaluate(s, expr, fuel);
            match e.result {
                Err(error) => Execution { state: e.state, result: Err(error) },
                Ok(v) => Execution { state: e.state, result: Ok(Some(v)) },
            }
        },
        None => Execution { state: s, result: Ok(Some(ValueView::Nil)) },
    }
}

/// The methods of a class as closures over the scope at `scope`, behind
/// those in `found`. The one named `init` is the initializer.
pub open spec fn methods_of(methods: List<Rc<Func>>, scope: usize, found: Map<Seq<u8>, LaxFn>) -> Map<
    Seq<u8>,
    LaxFn,
>
    decreases methods,
{
    match methods {
        List::Nil => found,
        List::Cons(first, rest) => methods_of(
            *rest,
            scope,
            found.insert(
                first.token.lexeme@,
                LaxFn {
                    declaration: *first,
                    closure: scope,
                    is_init: first.token.lexeme@ == bytes_of("init"),
                },
            ),
        ),
    }
}

/// The class that a declaration makes in state `s`, where the methods close
/// over the scope at `scope`: added to the heap and assigned to the name
/// that the declaration bound before.
pub open spec fn declare_class(s: InterpreterView, stmt: Class, superclass: Option<usize>, scope: usize) -> Execution {
    let class = LaxClassView {
        name: stmt.token.lexeme@,
        methods: methods_of(stmt.methods, scope, Map::empty()),
        superclass,
    };
    let made = s.heap.with_new_class(class);
    match assign(
        made.environments,
        scope,
        stmt.token,
        ValueView::Callable(Callable::LaxClass(s.heap.classes.len() as usize)),
    ) {
        Ok(after) => done(s.with_heap(made.with_environments(after))),
        Err(e) => Execution { state: s.with_heap(made), result: Err(e) },
    }
}

/// The name, bound to `nil` first; the superclass, which must be a class;
/// with a superclass, a new scope in which `super` denotes it, for the
/// methods to close over; the class itself, assigned to its name.
pub open spec fn visit_class_stmt(s: InterpreterView, stmt: Class) -> Execution {
    let named = s.define(stmt.token.lexeme@, ValueView::Nil);
    match stmt.superclass {
        Some(var) => match lookup_variable(named, var.token, var.id) {
            Err(e) => Execution { state: named, result: Err(e) },
            Ok(ValueView::Callable(Callable::LaxClass(parent))) => {
                let scope = named.heap.environments.len() as usize;
                let inner = named.with_heap(
                    named.heap.with_new_environment(Some(named.environment)).define(
                        scope,
                        bytes_of("super"),
                        ValueView::Callable(Callable::LaxClass(parent)),
                    ),
                );
                declare_class(inner, stmt, Some(parent), scope)
            },
            Ok(_) => Execution {
                state: named,
                result: Err(
                    RuntimeError { token: var.token, message: Message::Text("Superclass must be a class.") },
                ),
            },
        },
        None => declare_class(named, stmt, None, named.environment),
    }
}

/// The statements of a program from the `i`-th on, up to the first that
/// fails. A `return` outside every function ends its statement only.
pub open spec fn interpret_from(s: InterpreterView, stmts: Seq<Stmt>, i: int, fuel: nat) -> Execution
    decreases stmts.len() - i,
{
    if 0 <= i < stmts.len() {
        let r = execute(s, stmts[i], fuel);
        match r.result {
            Err(_) => r,
            Ok(_) => interpret_from(r.state, stmts, i + 1, fuel),
        }
    } else {
        done(s)
    }
}

/// The run of a program.
pub open spec fn interpret(s: InterpreterView, stmts: Seq<Stmt>, fuel: nat) -> Execution {
    interpret_from(s, stmts, 0, fuel)
}

/// Arguments that were evaluated are as many as the argument expressions,
/// behind those that were found before.
pub proof fn evaluated_arguments_are_counted(s: InterpreterView, args: List<Expr>, fuel: nat, found: Seq<ValueView>)
    ensures
        evaluate_args(s, args, fuel, found).result matches Ok(values) ==> values.len() == found.len()
            + args.count(),
    decreases args,
{
    match args {
        List::Nil => {},
        List::Cons(first, rest) => {
            let arg = evaluate(s, *first, fuel);
            match arg.result {
                Err(_) => {},
                Ok(v) => {
                    evaluated_arguments_are_counted(arg.state, *rest, fuel, found.push(v));
                },
            }
        },
    }
}

/// Whatever the state, a call whose callee and arguments evaluate hands
/// over as many arguments as the callee takes: where the call expression
/// holds another number of arguments, the call is the error that says so,
/// in the state that the arguments left, and nothing of the callee runs;
/// where it holds that number, the callee is called with their values.
pub proof fn call_hands_over_as_many_arguments_as_the_callee_takes(s: InterpreterView, expr: Call, fuel: nat)
    ensures
        ({
            let callee = evaluate(s, *expr.callee, fuel);
            let args = evaluate_args(callee.state, expr.args, fuel, Seq::empty());
            match (callee.result, args.result) {
                (Ok(ValueView::Callable(function)), Ok(values)) => {
                    &&& values.len() == expr.args.count()
                    &&& if expr.args.count() == args.state.heap.arity(function) {
                        visit_call_expr(s, expr, fuel) == call_value(
                            args.state,
                            function,
                            values,
                            expr.paren,
                            fuel,
                        )
                    } else {
                        visit_call_expr(s, expr, fuel) == (Evaluation {
                            state: args.state,
                            result: Err(
                                RuntimeError {
                                    token: expr.paren,
                                    message: Message::Arity(
                                        args.state.heap.arity(function),
                                        expr.args.count() as usize,
                                    ),
                                },
                            ),
                        })
                    }
                },
                _ => true,
            }
        }),
{
    let callee = evaluate(s, *expr.callee, fuel);
    evaluated_arguments_are_counted(callee.state, expr.args, fuel, Seq::empty());
}

/// Whatever the initializer of a class does and returns, a call of the
/// class that succeeds yields the object that the call made: the one
/// behind all the objects that there were before the call.
pub proof fn class_call_yields_the_new_object(
    s: InterpreterView,
    class: usize,
    args: Seq<ValueView>,
    paren: Rc<Token>,
    fuel: nat,
)
    ensures
        instantiate(s, class, args, paren, fuel).result matches Ok(v) ==> v == ValueView::LaxObject(
            s.heap.objects.len() as usize,
        ),
{
}

/// Whatever the body of an initializer returns, a call of it that succeeds
/// yields what `this` denotes in the scope that it closes over.
pub proof fn initializer_yields_this(
    s: InterpreterView,
    function: LaxFn,
    args: Seq<ValueView>,
    paren: Rc<Token>,
    fuel: nat,
)
    requires
        function.is_init,
    ensures
        ({
            let called = call_function(s, function, args, paren, fuel);
            called.result matches Ok(v) ==> get_named_at(
                called.state.heap.environments,
                function.closure,
                0,
                bytes_of("this"),
            ) == Ok::<ValueView, crate::environment::Missing>(v)
        }),
{
}

/// Whatever the operands: where the left operand of `or` is truthy, and
/// where the left operand of `and` is falsy, the outcome is that of the left
/// operand alone, state and value; the right operand is not evaluated.
pub proof fn logical_operators_short_circuit(s: InterpreterView, expr: Logical, fuel: nat)
    ensures
        ({
            let left = evaluate(s, *expr.left, fuel);
            left.result matches Ok(v) && (truthy(v) == (expr.operator.token_type == TokenType::Or))
                ==> visit_logical_expr(s, expr, fuel) == left
        }),
{
}

/// Whatever the statements: where the first of them fails or returns, the
/// outcome is that of the first alone; none of the others is executed.
pub proof fn a_return_ends_the_statements(s: InterpreterView, first: Stmt, rest: List<Stmt>, fuel: nat)
    ensures
        !(execute(s, first, fuel).result matches Ok(None)) ==> execute_stmts(
            s,
            List::Cons(Box::new(first), Box::new(rest)),
            fuel,
        ) == execute(s, first, fuel),
{
}

/// Whatever the statements and however they end: behind a block, the scope
/// that was active before it is active again.
pub proof fn a_block_leaves_the_active_scope(s: InterpreterView, stmts: List<Stmt>, scope: usize, fuel: nat)
    ensures
        execute_block(s, stmts, scope, fuel).state.environment == s.environment,
{
}

} // verus!
