//! The interpreter: a walk over the syntax tree that computes the functions
//! of the semantics.

use crate::ast::expr::Assign;
use crate::ast::expr::Binary;
use crate::ast::expr::Call;
use crate::ast::expr::Expr;
use crate::ast::expr::Get;
use crate::ast::expr::Grouping;
use crate::ast::expr::Literal;
use crate::ast::expr::Logical;
use crate::ast::expr::SetField;
use crate::ast::expr::Super;
use crate::ast::expr::This;
use crate::ast::expr::Unary;
use crate::ast::expr::Var;
use crate::ast::list::List;
use crate::ast::stmt::Block;
use crate::ast::stmt::Class;
use crate::ast::stmt::Func;
use crate::ast::stmt::If;
use crate::ast::stmt::Let;
use crate::ast::stmt::Print;
use crate::ast::stmt::Return;
use crate::ast::stmt::Stmt;
use crate::ast::stmt::StmtExpr;
use crate::ast::stmt::While;
use crate::callables::callable::Callable;
use crate::callables::callable::Native;
use crate::callables::lax_class::LaxClass;
use crate::callables::lax_functions::LaxFn;
use crate::callables::lax_object::LaxObject;
use crate::callables::native_functions::NativeDeclarations;
use crate::callables::native_functions::with_natives;
use crate::environment::Environment;
use crate::environment::Missing;
use crate::environment::value_result;
use crate::error::RuntimeError;
use crate::heap::Heap;
use crate::heap::HeapView;
use crate::heap::Printed;
use crate::heap::printed_views;
use crate::number::difference;
use crate::number::equal;
use crate::number::less;
use crate::number::less_or_equal;
use crate::number::negate;
use crate::number::product;
use crate::number::quotient;
use crate::number::sum;
use crate::semantics::Arguments;
use crate::semantics::binary_value;
use crate::semantics::call_value;
use crate::semantics::declare_class;
use crate::semantics::evaluate;
use crate::semantics::evaluate_args;
use crate::semantics::Evaluation;
use crate::semantics::execute;
use crate::semantics::execute_block;
use crate::semantics::execute_stmts;
use crate::semantics::Execution;
use crate::semantics::interpret;
use crate::semantics::interpret_from;
use crate::semantics::InterpreterView;
use crate::semantics::lookup_variable;
use crate::semantics::methods_of;
use crate::semantics::property;
use crate::semantics::unary_value;
use crate::semantics::visit_assign_expr;
use crate::semantics::visit_binary_expr;
use crate::semantics::visit_block_stmt;
use crate::semantics::visit_call_expr;
use crate::semantics::visit_class_stmt;
use crate::semantics::visit_expr_stmt;
use crate::semantics::visit_func_stmt;
use crate::semantics::visit_get_expr;
use crate::semantics::visit_grouping_expr;
use crate::semantics::visit_if_stmt;
use crate::semantics::visit_let_stmt;
use crate::semantics::visit_literal_expr;
use crate::semantics::visit_logical_expr;
use crate::semantics::visit_print_stmt;
use crate::semantics::visit_return_stmt;
use crate::semantics::visit_set_expr;
use crate::semantics::visit_super_expr;
use crate::semantics::visit_this_expr;
use crate::semantics::visit_unary_expr;
use crate::semantics::visit_var_expr;
use crate::semantics::visit_while_stmt;
use crate::table::Table;
use crate::text::append;
use crate::text::copy_range;
use crate::text::is_text;
use crate::text::share;
use crate::text::to_bytes;
use crate::token::Token;
use crate::token::TokenType;
use crate::token::Value;
use crate::token::ValueView;
use std::collections::HashMap;
use std::rc::Rc;
use vstd::prelude::*;

verus! {

broadcast use vstd::std_specs::hash::group_hash_axioms;

/// The views of a list of values, in order.
pub open spec fn value_views(values: Seq<Value>) -> Seq<ValueView> {
    Seq::new(values.len(), |i: int| values[i]@)
}

/// A result with the value of a `return`, if it holds one, in its
/// mathematical form.
pub open spec fn return_result(r: Result<Option<Value>, RuntimeError>) -> Result<
    Option<ValueView>,
    RuntimeError,
> {
    match r {
        Ok(Some(v)) => Ok(Some(v@)),
        Ok(None) => Ok(None),
        Err(e) => Err(e),
    }
}

/// The state in which every run begins: the globals, which define the
/// native functions, and inside them the scope of the program.
pub open spec fn initial_state() -> InterpreterView {
    InterpreterView {
        heap: with_natives(
            HeapView {
                environments: Seq::empty(),
                functions: Seq::empty(),
                classes: Seq::empty(),
                objects: Seq::empty(),
            }.with_new_environment(None),
            0,
        ).with_new_environment(Some(0usize)),
        globals: 0,
        environment: 1,
        locals: Map::empty(),
        output: Seq::empty(),
        clock: 0,
    }
}

/// The state of a run, and the budget that each run of a program is given.
pub struct Interpreter {
    pub globals: usize,
    pub environment: usize,
    pub locals: HashMap<u64, usize>,
    pub heap: Heap,
    pub output: Vec<Printed>,
    pub clock: u64,
    pub fuel: u64,
}

impl View for Interpreter {
    type V = InterpreterView;

    open spec fn view(&self) -> InterpreterView {
        InterpreterView {
            heap: self.heap@,
            globals: self.globals,
            environment: self.environment,
            locals: self.locals@,
            output: printed_views(self.output@),
            clock: self.clock,
        }
    }
}

impl Interpreter {
    /// `self` is the state that an evaluation ended in, and `r` what it
    /// handed out.
    pub open spec fn evaluated(&self, r: Result<Value, RuntimeError>, e: Evaluation) -> bool {
        e == (Evaluation { state: self@, result: value_result(r) })
    }

    /// `self` is the state that an execution ended in, and `r` what it
    /// handed out.
    pub open spec fn executed(&self, r: Result<Option<Value>, RuntimeError>, e: Execution) -> bool {
        e == (Execution { state: self@, result: return_result(r) })
    }

    /// An interpreter in the initial state, with the largest budget.
    pub fn new() -> (r: Self)
        ensures
            r@ == initial_state(),
            r.fuel == u64::MAX,
    {
        let mut heap = Heap::new();
        let globals = heap.new_environment(None);
        let mut native = NativeDeclarations::new(globals);
        let globals = native.declare_natives(&mut heap);
        let environment = heap.new_environment(Some(globals));
        let r = Interpreter {
            globals,
            environment,
            locals: HashMap::new(),
            heap,
            output: Vec::new(),
            clock: 0,
            fuel: u64::MAX,
        };
        proof {
            assert(r@.output =~= Seq::empty());
        }
        r
    }

    /// Sets the time that `clock` tells: seconds since the Unix epoch, as
    /// the bit pattern of a double.
    pub fn set_clock(&mut self, now: u64)
        ensures
            final(self)@ == (InterpreterView { clock: now, ..old(self)@ }),
            final(self).fuel == old(self).fuel,
    {
        self.clock = now;
    }

    /// Sets the budget that each run of a program is given.
    pub fn set_fuel(&mut self, fuel: u64)
        ensures
            final(self)@ == old(self)@,
            final(self).fuel == fuel,
    {
        self.fuel = fuel;
    }

    /// Hands out what was printed since the last call, and forgets it.
    pub fn take_output(&mut self) -> (r: Vec<Printed>)
        ensures
            printed_views(r@) == old(self)@.output,
            final(self)@ == (InterpreterView { output: Seq::empty(), ..old(self)@ }),
            final(self).fuel == old(self).fuel,
    {
        let mut out: Vec<Printed> = Vec::new();
        std::mem::swap(&mut self.output, &mut out);
        proof {
            assert(printed_views(self.output@) =~= Seq::empty());
        }
        out
    }

    /// Runs a program: its statements in order, up to the first that fails.
    pub fn interpret(&mut self, stmts: &Vec<Stmt>) -> (r: Result<(), RuntimeError>)
        ensures
            final(self).fuel == old(self).fuel,
            ({
                let run = interpret(old(self)@, stmts@, old(self).fuel as nat);
                &&& final(self)@ == run.state
                &&& match run.result {
                    Ok(_) => r is Ok,
                    Err(e) => r == Err::<(), RuntimeError>(e),
                }
            }),
    {
        let fuel = self.fuel;
        let mut i: usize = 0;
        while i < stmts.len()
            invariant
                i <= stmts.len(),
                self.fuel == old(self).fuel,
                fuel == self.fuel,
                interpret_from(self@, stmts@, i as int, fuel as nat) == interpret(
                    old(self)@,
                    stmts@,
                    old(self).fuel as nat,
                ),
            decreases stmts.len() - i,
        {
            self.execute(&stmts[i], fuel)?;
            i += 1;
        }
        Ok(())
    }

    fn execute(&mut self, stmt: &Stmt, fuel: u64) -> (r: Result<Option<Value>, RuntimeError>)
        ensures
            final(self).executed(r, execute(old(self)@, *stmt, fuel as nat)),
            final(self).fuel == old(self).fuel,
        decreases fuel, 3int, stmt, 0int,
    {
        match stmt {
            Stmt::StmtExpr(st) => self.visit_expr_stmt(st, fuel),
            Stmt::Print(st) => self.visit_print_stmt(st, fuel),
            Stmt::Let(st) => self.visit_let_stmt(st, fuel),
            Stmt::Block(st) => self.visit_block_stmt(st, fuel),
            Stmt::If(st) => self.visit_if_stmt(st, fuel),
            Stmt::While(st) => self.visit_while_stmt(st, fuel),
            Stmt::Func(st) => self.visit_func_stmt(st),
            Stmt::Return(st) => self.visit_return_stmt(st, fuel),
            Stmt::Class(st) => self.visit_class_stmt(st),
        }
    }

    fn evaluate(&mut self, expr: &Expr, fuel: u64) -> (r: Result<Value, RuntimeError>)
        ensures
            final(self).evaluated(r, evaluate(old(self)@, *expr, fuel as nat)),
            final(self).fuel == old(self).fuel,
        decreases fuel, 1int, expr, 0int,
    {
        match expr {
            Expr::Binary(e) => self.visit_binary_expr(e, fuel),
            Expr::Grouping(e) => self.visit_grouping_expr(e, fuel),
            Expr::Literal(e) => self.visit_literal_expr(e),
            Expr::Unary(e) => self.visit_unary_expr(e, fuel),
            Expr::Var(e) => self.visit_var_expr(e),
            Expr::Assign(e) => self.visit_assign_expr(e, fuel),
            Expr::Logical(e) => self.visit_logical_expr(e, fuel),
            Expr::Call(e) => self.visit_call_expr(e, fuel),
            Expr::Get(e) => self.visit_get_expr(e, fuel),
            Expr::SetField(e) => self.visit_set_expr(e, fuel),
            Expr::This(e) => self.visit_this_expr(e),
            Expr::Super(e) => self.visit_super_expr(e),
        }
    }

    /// Records the distance that the resolver found for an expression.
    pub fn resolve(&mut self, id: u64, depth: usize)
        ensures
            final(self)@ == (InterpreterView { locals: old(self)@.locals.insert(id, depth), ..old(self)@ }),
            final(self).fuel == old(self).fuel,
    {
        self.locals.insert(id, depth);
    }

    /// Executes the statements with the scope at `scope` as the active one.
    pub fn execute_block(&mut self, stmts: &List<Stmt>, scope: usize, fuel: u64) -> (r: Result<
        Option<Value>,
        RuntimeError,
    >)
        ensures
            final(self).executed(r, execute_block(old(self)@, *stmts, scope, fuel as nat)),
            final(self).fuel == old(self).fuel,
        decreases fuel, 3int, stmts, 1int,
    {
        let previous = self.environment;
        self.environment = scope;
        let r = self.execute_stmts(stmts, fuel);
        self.environment = previous;
        r
    }

    fn execute_stmts(&mut self, stmts: &List<Stmt>, fuel: u64) -> (r: Result<Option<Value>, RuntimeError>)
        ensures
            final(self).executed(r, execute_stmts(old(self)@, *stmts, fuel as nat)),
            final(self).fuel == old(self).fuel,
        decreases fuel, 3int, stmts, 0int,
    {
        let mut rest = stmts;
        loop
            invariant
                self.fuel == old(self).fuel,
                rest == stmts || decreases_to!(stmts => rest),
                execute_stmts(self@, *rest, fuel as nat) == execute_stmts(old(self)@, *stmts, fuel as nat),
            decreases rest,
        {
            match rest {
                List::Nil => {
                    return Ok(None);
                },
                List::Cons(first, tail) => {
                    match self.execute(first, fuel) {
                        Ok(None) => {},
                        Ok(Some(v)) => {
                            return Ok(Some(v));
                        },
                        Err(e) => {
                            return Err(e);
                        },
                    }
                    rest = tail;
                },
            }
        }
    }

    fn lookup_variable(&self, token: &Rc<Token>, id: u64) -> (r: Result<Value, RuntimeError>)
        ensures
            value_result(r) == lookup_variable(self@, *token, id),
    {
        match self.locals.get(&id) {
            Some(depth) => Environment::get_at(&self.heap.environments, self.environment, *depth, token),
            None => Environment::get(&self.heap.environments, self.globals, token),
        }
    }

    fn visit_literal_expr(&mut self, expr: &Literal) -> (r: Result<Value, RuntimeError>)
        ensures
            final(self).evaluated(r, visit_literal_expr(old(self)@, *expr)),
            final(self).fuel == old(self).fuel,
    {
        Ok(expr.value.copy())
    }

    fn visit_grouping_expr(&mut self, expr: &Grouping, fuel: u64) -> (r: Result<Value, RuntimeError>)
        ensures
            final(self).evaluated(r, visit_grouping_expr(old(self)@, *expr, fuel as nat)),
            final(self).fuel == old(self).fuel,
        decreases fuel, 1int, expr, 0int,
    {
        self.evaluate(&expr.expr, fuel)
    }

    /// `-x` of a number, `!x` of any value; `None` where `-` meets a value
    /// that is no number.
    pub fn unary_value(operator: TokenType, value: &Value) -> (r: Option<Value>)
        ensures
            match r {
                Some(v) => unary_value(operator, value@) == Some(v@),
                None => unary_value(operator, value@) is None,
            },
    {
        match operator {
            TokenType::Minus => match value {
                Value::Num(n) => Some(Value::Num(negate(*n))),
                _ => None,
            },
            TokenType::Bang => Some(Value::Bool(!value.is_truthy())),
            _ => Some(Value::Nil),
        }
    }

    fn visit_unary_expr(&mut self, expr: &Unary, fuel: u64) -> (r: Result<Value, RuntimeError>)
        ensures
            final(self).evaluated(r, visit_unary_expr(old(self)@, *expr, fuel as nat)),
            final(self).fuel == old(self).fuel,
        decreases fuel, 1int, expr, 0int,
    {
        let right = self.evaluate(&expr.right, fuel)?;
        match Self::unary_value(expr.operator.token_type, &right) {
            Some(v) => Ok(v),
            None => Err(RuntimeError::new(share(&expr.operator), "Operand must be a number.")),
        }
    }

    /// What an operator makes of two values, or the text of the error that
    /// it cannot be used on them.
    pub fn binary_value(operator: TokenType, left: &Value, right: &Value) -> (r: Result<Value, &'static str>)
        ensures
            match r {
                Ok(v) => binary_value(operator, left@, right@) == Ok::<ValueView, &'static str>(v@),
                Err(m) => binary_value(operator, left@, right@) == Err::<ValueView, &'static str>(m),
            },
    {
        match (left, right) {
            (Value::Num(left), Value::Num(right)) => match operator {
                TokenType::Plus => Ok(Value::Num(sum(*left, *right))),
                TokenType::Minus => Ok(Value::Num(difference(*left, *right))),
                TokenType::Star => Ok(Value::Num(product(*left, *right))),
                TokenType::Slash => Ok(Value::Num(quotient(*left, *right))),
                TokenType::Greater => Ok(Value::Bool(less(*right, *left))),
                TokenType::GreaterEqual => Ok(Value::Bool(less_or_equal(*right, *left))),
                TokenType::Less => Ok(Value::Bool(less(*left, *right))),
                TokenType::LessEqual => Ok(Value::Bool(less_or_equal(*left, *right))),
                TokenType::EqualEqual => Ok(Value::Bool(equal(*left, *right))),
                _ => Err("Operator cannot be used on numbers"),
            },
            (Value::String(left), Value::String(right)) => match operator {
                TokenType::Plus => {
                    let mut joined = copy_range(left, 0, left.len());
                    append(&mut joined, right.as_slice());
                    proof {
                        assert(left@.subrange(0, left@.len() as int) =~= left@);
                    }
                    Ok(Value::new_string(joined))
                },
                TokenType::EqualEqual => Ok(
                    Value::Bool(crate::text::same_bytes(left.as_slice(), right.as_slice())),
                ),
                _ => Err("Operator cannot be used on strings"),
            },
            (left, right) => match operator {
                TokenType::EqualEqual => Ok(Value::Bool(left.equals(right))),
                TokenType::BangEqual => Ok(Value::Bool(!left.equals(right))),
                _ => Err("Operator cannot be used on values of this type"),
            },
        }
    }

    fn visit_binary_expr(&mut self, expr: &Binary, fuel: u64) -> (r: Result<Value, RuntimeError>)
        ensures
            final(self).evaluated(r, visit_binary_expr(old(self)@, *expr, fuel as nat)),
            final(self).fuel == old(self).fuel,
        decreases fuel, 1int, expr, 0int,
    {
        let left = self.evaluate(&expr.left, fuel)?;
        let right = self.evaluate(&expr.right, fuel)?;
        match Self::binary_value(expr.operator.token_type, &left, &right) {
            Ok(v) => Ok(v),
            Err(message) => Err(RuntimeError::new(share(&expr.operator), message)),
        }
    }

    fn visit_var_expr(&mut self, expr: &Var) -> (r: Result<Value, RuntimeError>)
        ensures
            final(self).evaluated(r, visit_var_expr(old(self)@, *expr)),
            final(self).fuel == old(self).fuel,
    {
        self.lookup_variable(&expr.token, expr.id)
    }

    fn visit_assign_expr(&mut self, expr: &Assign, fuel: u64) -> (r: Result<Value, RuntimeError>)
        ensures
            final(self).evaluated(r, visit_assign_expr(old(self)@, *expr, fuel as nat)),
            final(self).fuel == old(self).fuel,
        decreases fuel, 1int, expr, 0int,
    {
        let value = self.evaluate(&expr.value, fuel)?;
        match self.locals.get(&expr.id) {
            Some(distance) => {
                Environment::assign_at(
                    &mut self.heap.environments,
                    self.environment,
                    *distance,
                    &expr.token,
                    value.copy(),
                )?;
            },
            None => {
                Environment::assign(&mut self.heap.environments, self.globals, &expr.token, value.copy())?;
            },
        }
        Ok(value)
    }

    fn visit_logical_expr(&mut self, expr: &Logical, fuel: u64) -> (r: Result<Value, RuntimeError>)
        ensures
            final(self).evaluated(r, visit_logical_expr(old(self)@, *expr, fuel as nat)),
            final(self).fuel == old(self).fuel,
        decreases fuel, 1int, expr, 0int,
    {
        let left = self.evaluate(&expr.left, fuel)?;
        match expr.operator.token_type {
            TokenType::Or => {
                if left.is_truthy() {
                    return Ok(left);
                }
            },
            _ => {
                if !left.is_truthy() {
                    return Ok(left);
                }
            },
        }
        self.evaluate(&expr.right, fuel)
    }

    /// The values of the arguments, behind those in `found`.
    fn evaluate_args(&mut self, args: &List<Expr>, fuel: u64, found: Vec<Value>) -> (r: Result<
        Vec<Value>,
        RuntimeError,
    >)
        ensures
            final(self).fuel == old(self).fuel,
            evaluate_args(old(self)@, *args, fuel as nat, value_views(found@)) == (Arguments {
                state: final(self)@,
                result: match r {
                    Ok(values) => Ok(value_views(values@)),
                    Err(e) => Err(e),
                },
            }),
        decreases fuel, 1int, args, 0int,
    {
        match args {
            List::Nil => Ok(found),
            List::Cons(first, rest) => {
                let value = self.evaluate(first, fuel)?;
                let mut found = found;
                let ghost before = found@;
                found.push(value);
                proof {
                    assert(value_views(found@) =~= value_views(before).push(value@));
                }
                self.evaluate_args(rest, fuel, found)
            },
        }
    }

    fn visit_call_expr(&mut self, expr: &Call, fuel: u64) -> (r: Result<Value, RuntimeError>)
        ensures
            final(self).evaluated(r, visit_call_expr(old(self)@, *expr, fuel as nat)),
            final(self).fuel == old(self).fuel,
        decreases fuel, 1int, expr, 0int,
    {
        let callee = self.evaluate(&expr.callee, fuel)?;
        let function = match callee {
            Value::Callable(function) => function,
            _ => {
                return Err(RuntimeError::new(share(&expr.paren), "Can only call functions and classes."));
            },
        };
        let found: Vec<Value> = Vec::new();
        proof {
            assert(value_views(found@) =~= Seq::empty());
        }
        let args = self.evaluate_args(&expr.args, fuel, found)?;
        let arity = self.heap.arity(&function);
        if args.len() != arity {
            return Err(RuntimeError::arity(share(&expr.paren), arity, args.len()));
        }
        self.call_value(&function, args, &expr.paren, fuel)
    }

    /// Calls `callee` with `args`, of which there are as many as it takes.
    pub(crate) fn call_value(&mut self, callee: &Callable, args: Vec<Value>, paren: &Rc<Token>, fuel: u64) -> (r: Result<
        Value,
        RuntimeError,
    >)
        ensures
            final(self).evaluated(
                r,
                call_value(old(self)@, *callee, value_views(args@), *paren, fuel as nat),
            ),
            final(self).fuel == old(self).fuel,
        decreases fuel, 0int, paren, 3int,
    {
        match callee {
            Callable::NativeFn(native) => match native.func {
                Native::Clock => Ok(Value::Num(self.clock)),
            },
            Callable::LaxFn(f) => {
                if *f < self.heap.functions.len() {
                    let function = self.heap.functions[*f].copy();
                    function.call(self, args, paren, fuel)
                } else {
                    Err(RuntimeError::new(share(paren), "Can only call functions and classes."))
                }
            },
            Callable::LaxClass(class) => LaxClass::call(*class, self, args, paren, fuel),
        }
    }

    fn visit_get_expr(&mut self, expr: &Get, fuel: u64) -> (r: Result<Value, RuntimeError>)
        ensures
            final(self).evaluated(r, visit_get_expr(old(self)@, *expr, fuel as nat)),
            final(self).fuel == old(self).fuel,
        decreases fuel, 1int, expr, 0int,
    {
        let object = self.evaluate(&expr.object, fuel)?;
        match object {
            Value::LaxObject(o) => LaxObject::get(self, o, &expr.token),
            _ => Err(RuntimeError::new(share(&expr.token), "Only instances have properties.")),
        }
    }

    fn visit_set_expr(&mut self, expr: &SetField, fuel: u64) -> (r: Result<Value, RuntimeError>)
        ensures
            final(self).evaluated(r, visit_set_expr(old(self)@, *expr, fuel as nat)),
            final(self).fuel == old(self).fuel,
        decreases fuel, 1int, expr, 0int,
    {
        let object = self.evaluate(&expr.object, fuel)?;
        let object = match object {
            Value::LaxObject(o) => o,
            _ => {
                return Err(RuntimeError::new(share(&expr.token), "Only instances have fields."));
            },
        };
        let value = self.evaluate(&expr.value, fuel)?;
        self.heap.set_field(object, share(&expr.token.lexeme), value.copy());
        Ok(value)
    }

    fn visit_this_expr(&mut self, expr: &This) -> (r: Result<Value, RuntimeError>)
        ensures
            final(self).evaluated(r, visit_this_expr(old(self)@, *expr)),
            final(self).fuel == old(self).fuel,
    {
        self.lookup_variable(&expr.keyword, expr.id)
    }

    /// A method of `class`, bound to `object`, as a new closure; or the
    /// error that the class has no such method.
    pub(crate) fn bound_method(&mut self, class: usize, method: &Rc<Token>, object: Value) -> (r: Result<
        Value,
        RuntimeError,
    >)
        ensures
            final(self).fuel == old(self).fuel,
            match crate::callables::lax_class::find_method(old(self)@.heap.classes, class, method.lexeme@) {
                Some(found) => r is Ok && r->Ok_0@ == ValueView::Callable(
                    Callable::LaxFn(old(self)@.heap.functions.len() as usize),
                ) && final(self)@ == old(self)@.with_heap(
                    old(self)@.heap.bind(found, object@).with_new_function(old(self)@.heap.bound(found)),
                ),
                None => final(self)@ == old(self)@ && r == Err::<Value, RuntimeError>(
                    RuntimeError {
                        token: *method,
                        message: crate::error::Message::Named("Undefined property '", "'."),
                    },
                ),
            },
    {
        match LaxClass::find_method(&self.heap.classes, class, method.lexeme.as_slice()) {
            Some(found) => {
                let bound = found.bind(&mut self.heap, object);
                let f = self.heap.new_function(bound);
                Ok(Value::Callable(Callable::LaxFn(f)))
            },
            None => Err(RuntimeError::named(share(method), "Undefined property '", "'.")),
        }
    }

    fn visit_super_expr(&mut self, expr: &Super) -> (r: Result<Value, RuntimeError>)
        ensures
            final(self).evaluated(r, visit_super_expr(old(self)@, *expr)),
            final(self).fuel == old(self).fuel,
    {
        let distance = match self.locals.get(&expr.id) {
            Some(distance) => *distance,
            None => 0,
        };
        if distance == 0 {
            return Environment::get(&self.heap.environments, self.globals, &expr.keyword);
        }
        let superclass = Environment::get_at(
            &self.heap.environments,
            self.environment,
            distance,
            &expr.keyword,
        )?;
        let class = match superclass {
            Value::Callable(Callable::LaxClass(class)) => class,
            _ => {
                return Err(RuntimeError::new(share(&expr.keyword), "Superclass must be a class."));
            },
        };
        let this = to_bytes("this");
        let object = match Environment::get_named_at(
            &self.heap.environments,
            self.environment,
            distance - 1,
            this.as_slice(),
        ) {
            Ok(object) => object,
            Err(Missing::Scope) => {
                return Err(
                    RuntimeError::named(
                        share(&expr.keyword),
                        "The scope where '",
                        "' is declared cannot be accessed",
                    ),
                );
            },
            Err(Missing::Name) => {
                return Err(
                    RuntimeError::named(share(&expr.keyword), "'", "' cannot be found in eclosing scopes."),
                );
            },
        };
        self.bound_method(class, &expr.method, object)
    }

    fn visit_expr_stmt(&mut self, stmt: &StmtExpr, fuel: u64) -> (r: Result<Option<Value>, RuntimeError>)
        ensures
            final(self).executed(r, visit_expr_stmt(old(self)@, *stmt, fuel as nat)),
            final(self).fuel == old(self).fuel,
        decreases fuel, 2int, stmt, 0int,
    {
        self.evaluate(&stmt.expr, fuel)?;
        Ok(None)
    }

    fn visit_print_stmt(&mut self, stmt: &Print, fuel: u64) -> (r: Result<Option<Value>, RuntimeError>)
        ensures
            final(self).executed(r, visit_print_stmt(old(self)@, *stmt, fuel as nat)),
            final(self).fuel == old(self).fuel,
        decreases fuel, 2int, stmt, 0int,
    {
        let value = self.evaluate(&stmt.expr, fuel)?;
        let line = self.heap.printed(&value);
        let ghost before = self.output@;
        self.output.push(line);
        proof {
            assert(printed_views(self.output@) =~= printed_views(before).push(line@));
        }
        Ok(None)
    }

    fn visit_let_stmt(&mut self, stmt: &Let, fuel: u64) -> (r: Result<Option<Value>, RuntimeError>)
        ensures
            final(self).executed(r, visit_let_stmt(old(self)@, *stmt, fuel as nat)),
            final(self).fuel == old(self).fuel,
        decreases fuel, 2int, stmt, 0int,
    {
        let value = match &stmt.initializer {
            Some(expr) => self.evaluate(expr, fuel)?,
            None => Value::Nil,
        };
        self.heap.define(self.environment, share(&stmt.token.lexeme), value);
        Ok(None)
    }

    fn visit_block_stmt(&mut self, stmt: &Block, fuel: u64) -> (r: Result<Option<Value>, RuntimeError>)
        ensures
            final(self).executed(r, visit_block_stmt(old(self)@, *stmt, fuel as nat)),
            final(self).fuel == old(self).fuel,
        decreases fuel, 3int, stmt, 0int,
    {
        let functions = self.heap.functions.len();
        let classes = self.heap.classes.len();
        let scope = self.heap.new_environment(Some(self.environment));
        let r = self.execute_block(&stmt.stmts, scope, fuel);
        self.heap.release(functions, classes, scope);
        r
    }

    fn visit_if_stmt(&mut self, stmt: &If, fuel: u64) -> (r: Result<Option<Value>, RuntimeError>)
        ensures
            final(self).executed(r, visit_if_stmt(old(self)@, *stmt, fuel as nat)),
            final(self).fuel == old(self).fuel,
        decreases fuel, 3int, stmt, 0int,
    {
        let condition = self.evaluate(&stmt.condition, fuel)?;
        if condition.is_truthy() {
            self.execute(&stmt.body, fuel)
        } else if let Some(else_body) = &stmt.else_body {
            self.execute(else_body, fuel)
        } else {
            Ok(None)
        }
    }

    fn visit_while_stmt(&mut self, stmt: &While, fuel: u64) -> (r: Result<Option<Value>, RuntimeError>)
        ensures
            final(self).executed(r, visit_while_stmt(old(self)@, *stmt, fuel as nat)),
            final(self).fuel == old(self).fuel,
        decreases fuel, 3int, stmt, 0int,
    {
        let mut left = fuel;
        loop
            invariant
                self.fuel == old(self).fuel,
                left <= fuel,
                visit_while_stmt(self@, *stmt, left as nat) == visit_while_stmt(
                    old(self)@,
                    *stmt,
                    fuel as nat,
                ),
            decreases left,
        {
            let condition = self.evaluate(&stmt.condition, left)?;
            if !condition.is_truthy() {
                return Ok(None);
            }
            if let Some(value) = self.execute(&stmt.body, left)? {
                return Ok(Some(value));
            }
            if left == 0 {
                return Err(RuntimeError::new(share(&stmt.keyword), "Too many iterations."));
            }
            left -= 1;
        }
    }

    fn visit_func_stmt(&mut self, stmt: &Rc<Func>) -> (r: Result<Option<Value>, RuntimeError>)
        ensures
            final(self).executed(r, visit_func_stmt(old(self)@, *stmt)),
            final(self).fuel == old(self).fuel,
    {
        let func = Callable::new_lax_fn(&mut self.heap, share(stmt), self.environment, false);
        self.heap.define(self.environment, share(&stmt.token.lexeme), Value::Callable(func));
        Ok(None)
    }

    fn visit_return_stmt(&mut self, stmt: &Return, fuel: u64) -> (r: Result<Option<Value>, RuntimeError>)
        ensures
            final(self).executed(r, visit_return_stmt(old(self)@, *stmt, fuel as nat)),
            final(self).fuel == old(self).fuel,
        decreases fuel, 2int, stmt, 0int,
    {
        let value = match &stmt.value {
            Some(value) => self.evaluate(value, fuel)?,
            None => Value::Nil,
        };
        Ok(Some(value))
    }

    /// The methods of a class as closures over the scope at `scope`.
    fn methods(methods: &List<Rc<Func>>, scope: usize) -> (r: Table<LaxFn>)
        ensures
            r@ == methods_of(*methods, scope, Map::empty()),
    {
        let mut found: Table<LaxFn> = Table::new();
        let mut rest = methods;
        loop
            invariant
                methods_of(*rest, scope, found@) == methods_of(*methods, scope, Map::empty()),
            decreases rest,
        {
            match rest {
                List::Nil => {
                    return found;
                },
                List::Cons(first, tail) => {
                    let is_init = is_text(first.token.lexeme.as_slice(), "init");
                    let function = LaxFn::new(share(first), scope, is_init);
                    found.insert(share(&first.token.lexeme), function);
                    rest = tail;
                },
            }
        }
    }

    /// Makes the class of a declaration, whose methods close over the scope
    /// at `scope`, and assigns it to its name.
    fn declare_class(&mut self, stmt: &Class, superclass: Option<usize>, scope: usize) -> (r: Result<
        Option<Value>,
        RuntimeError,
    >)
        ensures
            final(self).executed(r, declare_class(old(self)@, *stmt, superclass, scope)),
            final(self).fuel == old(self).fuel,
    {
        let methods = Self::methods(&stmt.methods, scope);
        let class = Callable::new_lax_class(&mut self.heap, share(&stmt.token.lexeme), methods, superclass);
        Environment::assign(&mut self.heap.environments, scope, &stmt.token, Value::Callable(class))?;
        Ok(None)
    }

    fn visit_class_stmt(&mut self, stmt: &Class) -> (r: Result<Option<Value>, RuntimeError>)
        ensures
            final(self).executed(r, visit_class_stmt(old(self)@, *stmt)),
            final(self).fuel == old(self).fuel,
    {
        self.heap.define(self.environment, share(&stmt.token.lexeme), Value::Nil);
        match &stmt.superclass {
            Some(var) => {
                let parent = match self.lookup_variable(&var.token, var.id)? {
                    Value::Callable(Callable::LaxClass(parent)) => parent,
                    _ => {
                        return Err(RuntimeError::new(share(&var.token), "Superclass must be a class."));
                    },
                };
                let scope = self.heap.new_environment(Some(self.environment));
                self.heap.define(
                    scope,
                    Rc::new(to_bytes("super")),
                    Value::Callable(Callable::LaxClass(parent)),
                );
                self.declare_class(stmt, Some(parent), scope)
            },
            None => self.declare_class(stmt, None, self.environment),
        }
    }
}

} // verus!
