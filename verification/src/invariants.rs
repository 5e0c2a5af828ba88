//! What holds of every state that a run reaches.
//!
//! - Every scope leads, by the links to the scopes that enclose it, to the
//!   globals, and the globals define the native functions.
//! - Every closure of the heap, and every method of every class, closes
//!   over a scope of the heap: a block and a call give up their scope
//!   behind them only where no closure and no class was made meanwhile.
//! - The methods of a class are held under their names, and the one named
//!   `init` is the initializer.

use crate::ast::expr::Assign;
use crate::ast::expr::Binary;
use crate::ast::expr::Call;
use crate::ast::expr::Expr;
use crate::ast::expr::Get;
use crate::ast::expr::Logical;
use crate::ast::expr::SetField;
use crate::ast::expr::Super;
use crate::ast::expr::Unary;
use crate::ast::list::List;
use crate::ast::stmt::Block;
use crate::ast::stmt::Class;
use crate::ast::stmt::Func;
use crate::ast::stmt::If;
use crate::ast::stmt::Let;
use crate::ast::stmt::Stmt;
use crate::ast::stmt::While;
use crate::callables::callable::Callable;
use crate::callables::lax_class::find_method;
use crate::callables::lax_class::LaxClassView;
use crate::callables::lax_functions::LaxFn;
use crate::environment::ancestor;
use crate::environment::assign;
use crate::environment::assign_at;
use crate::environment::define;
use crate::environment::defining_scope;
use crate::environment::EnvironmentView;
use crate::heap::HeapView;
use crate::interpreter::initial_state;
use crate::semantics::bind_params;
use crate::semantics::call_function;
use crate::semantics::call_value;
use crate::semantics::declare_class;
use crate::semantics::evaluate;
use crate::semantics::evaluate_args;
use crate::semantics::execute;
use crate::semantics::execute_block;
use crate::semantics::execute_stmts;
use crate::semantics::got;
use crate::semantics::instantiate;
use crate::semantics::interpret;
use crate::semantics::interpret_from;
use crate::semantics::InterpreterView;
use crate::semantics::lookup_variable;
use crate::semantics::methods_of;
use crate::semantics::property;
use crate::semantics::released;
use crate::semantics::visit_assign_expr;
use crate::semantics::visit_binary_expr;
use crate::semantics::visit_block_stmt;
use crate::semantics::visit_call_expr;
use crate::semantics::visit_class_stmt;
use crate::semantics::visit_func_stmt;
use crate::semantics::visit_get_expr;
use crate::semantics::visit_if_stmt;
use crate::semantics::visit_let_stmt;
use crate::semantics::visit_logical_expr;
use crate::semantics::visit_set_expr;
use crate::semantics::visit_super_expr;
use crate::semantics::visit_unary_expr;
use crate::semantics::visit_while_stmt;
use crate::text::bytes_of;
use crate::token::Token;
use crate::token::ValueView;
use std::rc::Rc;
use vstd::prelude::*;

verus! {

/// A scope always stands behind the scope that encloses it.
pub open spec fn links_point_back(scopes: Seq<EnvironmentView>) -> bool {
    forall|i: int|
        0 <= i < scopes.len() ==> ((#[trigger] scopes[i]).enclosing matches Some(outer) ==> outer < i)
}

/// The links from the scope at `from`, each to the scope that encloses
/// the one before, lead to the scope at `to`.
pub open spec fn leads_to(scopes: Seq<EnvironmentView>, from: int, to: int) -> bool
    decreases from,
{
    0 <= from < scopes.len() && (from == to || match scopes[from].enclosing {
        Some(outer) => outer < from && leads_to(scopes, outer as int, to),
        None => false,
    })
}

/// The scopes are linked back; each of them leads to the globals; and the
/// globals define the native functions.
pub open spec fn scopes_rooted(scopes: Seq<EnvironmentView>, globals: usize) -> bool {
    &&& globals < scopes.len()
    &&& links_point_back(scopes)
    &&& forall|i: int| 0 <= i < scopes.len() ==> #[trigger] leads_to(scopes, i, globals as int)
    &&& scopes[globals as int].values.contains_key(bytes_of("clock"))
}

/// Every closure of the heap, and every method of every class, closes over
/// one of the first `bound` scopes.
pub open spec fn closures_below(heap: HeapView, bound: int) -> bool {
    &&& forall|f: int| 0 <= f < heap.functions.len() ==> (#[trigger] heap.functions[f]).closure < bound
    &&& forall|c: int, name: Seq<u8>|
        0 <= c < heap.classes.len() && (#[trigger] heap.classes[c]).methods.contains_key(name) ==> (
        #[trigger] heap.classes[c].methods[name]).closure < bound
}

/// A method is held under the name of its declaration, and it is the
/// initializer exactly if that name is `init`.
pub open spec fn method_named(method: LaxFn, name: Seq<u8>) -> bool {
    method.declaration.token.lexeme@ == name && method.is_init == (name == bytes_of("init"))
}

/// Every method of every class is held under its name.
pub open spec fn methods_named(heap: HeapView) -> bool {
    forall|c: int, name: Seq<u8>|
        0 <= c < heap.classes.len() && (#[trigger] heap.classes[c]).methods.contains_key(name)
            ==> method_named(#[trigger] heap.classes[c].methods[name], name)
}

/// The state is well formed: its scopes are rooted in the globals; the
/// active scope is one of them; every closure and every method closes over
/// one of them; and every method is held under its name.
pub open spec fn well_formed(s: InterpreterView) -> bool {
    &&& s.environment < s.heap.environments.len()
    &&& scopes_rooted(s.heap.environments, s.globals)
    &&& closures_below(s.heap, s.heap.environments.len() as int)
    &&& methods_named(s.heap)
}

/// `b` holds every closure and every class of `a` at its place, at least as
/// many scopes, and the same active scope and globals.
pub open spec fn grown(a: InterpreterView, b: InterpreterView) -> bool {
    &&& a.environment == b.environment
    &&& a.globals == b.globals
    &&& a.heap.environments.len() <= b.heap.environments.len()
    &&& a.heap.functions.len() <= b.heap.functions.len()
    &&& a.heap.classes.len() <= b.heap.classes.len()
    &&& forall|f: int| 0 <= f < a.heap.functions.len() ==> #[trigger] b.heap.functions[f] == a.heap.functions[f]
    &&& forall|c: int| 0 <= c < a.heap.classes.len() ==> #[trigger] b.heap.classes[c] == a.heap.classes[c]
}

/// What holds of a step from `a` to `b` that evaluation makes.
pub open spec fn kept(a: InterpreterView, b: InterpreterView) -> bool {
    well_formed(b) && grown(a, b)
}

proof fn lemma_kept_trans(a: InterpreterView, b: InterpreterView, c: InterpreterView)
    requires
        grown(a, b),
        kept(b, c),
    ensures
        kept(a, c),
{
}

/// Where two lists of scopes agree on the links up to a scope, the links
/// from that scope lead to the same scopes in both.
proof fn lemma_leads_to_by_links(a: Seq<EnvironmentView>, b: Seq<EnvironmentView>, from: int, to: int)
    requires
        leads_to(a, from, to),
        from < b.len(),
        forall|j: int| 0 <= j <= from ==> (#[trigger] a[j]).enclosing == (#[trigger] b[j]).enclosing,
    ensures
        leads_to(b, from, to),
    decreases from,
{
    if from != to {
        assert(a[from].enclosing == b[from].enclosing);
        match a[from].enclosing {
            Some(outer) => {
                lemma_leads_to_by_links(a, b, outer as int, to);
            },
            None => {},
        }
    }
}

/// Scopes that agree with rooted scopes on the links of the scopes that
/// both have, and on the names of the globals, are rooted, if every scope
/// that they have more leads to the globals.
proof fn lemma_rooted_by_links(a: Seq<EnvironmentView>, b: Seq<EnvironmentView>, globals: usize)
    requires
        scopes_rooted(a, globals),
        globals < b.len(),
        forall|j: int|
            0 <= j < a.len() && j < b.len() ==> (#[trigger] a[j]).enclosing == (#[trigger] b[j]).enclosing,
        forall|j: int|
            a.len() <= j < b.len() ==> ((#[trigger] b[j]).enclosing matches Some(outer) && outer < a.len()),
        b[globals as int].values.contains_key(bytes_of("clock")),
    ensures
        scopes_rooted(b, globals),
{
    assert forall|i: int| 0 <= i < b.len() implies ((#[trigger] b[i]).enclosing matches Some(outer)
        ==> outer < i) by {
        if i < a.len() {
            assert(a[i].enclosing == b[i].enclosing);
        }
    }
    assert forall|i: int| 0 <= i < b.len() implies #[trigger] leads_to(b, i, globals as int) by {
        if i < a.len() {
            assert(leads_to(a, i, globals as int));
            lemma_leads_to_by_links(a, b, i, globals as int);
        } else {
            match b[i].enclosing {
                Some(outer) => {
                    assert(leads_to(a, outer as int, globals as int));
                    lemma_leads_to_by_links(a, b, outer as int, globals as int);
                    assert(i != globals);
                },
                None => {},
            }
        }
    }
}

/// The scopes that `define` yields are as many as before, and rooted as
/// before.
proof fn lemma_define_shape(scopes: Seq<EnvironmentView>, at: usize, name: Seq<u8>, value: ValueView, globals: usize)
    ensures
        define(scopes, at, name, value).len() == scopes.len(),
        scopes_rooted(scopes, globals) ==> scopes_rooted(define(scopes, at, name, value), globals),
{
    let after = define(scopes, at, name, value);
    if scopes_rooted(scopes, globals) {
        assert forall|j: int| 0 <= j < scopes.len() && j < after.len() implies (
        #[trigger] scopes[j]).enclosing == (#[trigger] after[j]).enclosing by {}
        lemma_rooted_by_links(scopes, after, globals);
    }
}

/// A state with other scopes, as many as before or more and rooted, is a
/// step on.
proof fn lemma_other_scopes(s: InterpreterView, scopes: Seq<EnvironmentView>)
    requires
        well_formed(s),
        s.heap.environments.len() <= scopes.len(),
        scopes_rooted(scopes, s.globals),
    ensures
        kept(s, s.with_heap(s.heap.with_environments(scopes))),
{
}

proof fn lemma_defined(s: InterpreterView, at: usize, name: Seq<u8>, value: ValueView)
    requires
        well_formed(s),
    ensures
        kept(s, s.with_heap(s.heap.define(at, name, value))),
{
    lemma_define_shape(s.heap.environments, at, name, value, s.globals);
    lemma_other_scopes(s, define(s.heap.environments, at, name, value));
}

proof fn lemma_new_environment(s: InterpreterView, outer: usize)
    requires
        well_formed(s),
        outer < s.heap.environments.len(),
    ensures
        kept(s, s.with_heap(s.heap.with_new_environment(Some(outer)))),
{
    let scopes = s.heap.environments.push(EnvironmentView { values: Map::empty(), enclosing: Some(outer) });
    assert forall|j: int| 0 <= j < s.heap.environments.len() && j < scopes.len() implies (
    #[trigger] s.heap.environments[j]).enclosing == (#[trigger] scopes[j]).enclosing by {}
    lemma_rooted_by_links(s.heap.environments, scopes, s.globals);
    lemma_other_scopes(s, scopes);
}

proof fn lemma_bound(s: InterpreterView, method: LaxFn, object: ValueView)
    requires
        well_formed(s),
        method.closure < s.heap.environments.len(),
    ensures
        kept(s, s.with_heap(s.heap.bind(method, object))),
        s.heap.bind(method, object).environments.len() == s.heap.environments.len() + 1,
{
    lemma_new_environment(s, method.closure);
    let entered = s.with_heap(s.heap.with_new_environment(Some(method.closure)));
    lemma_defined(entered, s.heap.environments.len() as usize, bytes_of("this"), object);
    lemma_define_shape(
        entered.heap.environments,
        s.heap.environments.len() as usize,
        bytes_of("this"),
        object,
        s.globals,
    );
}

proof fn lemma_new_function(s: InterpreterView, function: LaxFn)
    requires
        well_formed(s),
        function.closure < s.heap.environments.len(),
    ensures
        kept(s, s.with_heap(s.heap.with_new_function(function))),
{
    let after = s.heap.with_new_function(function);
    assert forall|f: int| 0 <= f < after.functions.len() implies (#[trigger] after.functions[f]).closure
        < after.environments.len() by {
        if f < s.heap.functions.len() {
            assert(after.functions[f] == s.heap.functions[f]);
        }
    }
}

proof fn lemma_new_class(s: InterpreterView, class: LaxClassView)
    requires
        well_formed(s),
        forall|name: Seq<u8>| class.methods.contains_key(name) ==> (#[trigger] class.methods[name]).closure
            < s.heap.environments.len() && method_named(class.methods[name], name),
    ensures
        kept(s, s.with_heap(s.heap.with_new_class(class))),
{
    let after = s.heap.with_new_class(class);
    assert forall|c: int, name: Seq<u8>|
        0 <= c < after.classes.len() && (#[trigger] after.classes[c]).methods.contains_key(name) implies (
    #[trigger] after.classes[c].methods[name]).closure < after.environments.len() by {
        if c < s.heap.classes.len() {
            assert(after.classes[c] == s.heap.classes[c]);
        }
    }
    assert forall|c: int, name: Seq<u8>|
        0 <= c < after.classes.len() && (#[trigger] after.classes[c]).methods.contains_key(
            name,
        ) implies method_named(#[trigger] after.classes[c].methods[name], name) by {
        if c < s.heap.classes.len() {
            assert(after.classes[c] == s.heap.classes[c]);
        }
    }
}

/// A method that is found in a class closes over a scope of the heap.
proof fn lemma_found_method(s: InterpreterView, class: usize, name: Seq<u8>)
    requires
        well_formed(s),
    ensures
        find_method(s.heap.classes, class, name) matches Some(method) ==> method.closure
            < s.heap.environments.len(),
    decreases class,
{
    if class < s.heap.classes.len() {
        if s.heap.classes[class as int].methods.contains_key(name) {
            assert(s.heap.classes[class as int].methods[name].closure < s.heap.environments.len());
        } else {
            match s.heap.classes[class as int].superclass {
                Some(parent) => {
                    if parent < class {
                        lemma_found_method(s, parent, name);
                    }
                },
                None => {},
            }
        }
    }
}

/// A method, bound to an object, as a new closure.
proof fn lemma_bound_method(s: InterpreterView, method: LaxFn, object: ValueView)
    requires
        well_formed(s),
        method.closure < s.heap.environments.len(),
    ensures
        kept(s, s.with_heap(s.heap.bind(method, object).with_new_function(s.heap.bound(method)))),
{
    lemma_bound(s, method, object);
    let bound = s.with_heap(s.heap.bind(method, object));
    lemma_new_function(bound, s.heap.bound(method));
    lemma_kept_trans(s, bound, bound.with_heap(bound.heap.with_new_function(s.heap.bound(method))));
}

proof fn lemma_property(s: InterpreterView, object: usize, token: Rc<Token>)
    requires
        well_formed(s),
    ensures
        kept(s, property(s, object, token).state),
{
    if object < s.heap.objects.len() && !s.heap.objects[object as int].fields.contains_key(token.lexeme@) {
        let class = s.heap.objects[object as int].class;
        lemma_found_method(s, class, token.lexeme@);
        match find_method(s.heap.classes, class, token.lexeme@) {
            Some(method) => {
                lemma_bound_method(s, method, ValueView::LaxObject(object));
            },
            None => {},
        }
    }
}

proof fn lemma_super(s: InterpreterView, expr: Super)
    requires
        well_formed(s),
    ensures
        kept(s, visit_super_expr(s, expr).state),
{
    if s.locals.contains_key(expr.id) && s.locals[expr.id] > 0 {
        let distance = s.locals[expr.id];
        match crate::environment::get_at(s.heap.environments, s.environment, distance, expr.keyword) {
            Ok(ValueView::Callable(Callable::LaxClass(class))) => {
                match crate::environment::get_named_at(
                    s.heap.environments,
                    s.environment,
                    (distance - 1) as usize,
                    bytes_of("this"),
                ) {
                    Ok(object) => {
                        lemma_found_method(s, class, expr.method.lexeme@);
                        match find_method(s.heap.classes, class, expr.method.lexeme@) {
                            Some(method) => {
                                lemma_bound_method(s, method, object);
                            },
                            None => {},
                        }
                    },
                    Err(_) => {},
                }
            },
            _ => {},
        }
    }
}

/// An assignment binds a name in a scope, or changes nothing.
proof fn lemma_assigned(s: InterpreterView, at: usize, token: Rc<Token>, value: ValueView)
    requires
        well_formed(s),
    ensures
        assign(s.heap.environments, at, token, value) matches Ok(after) ==> kept(
            s,
            s.with_heap(s.heap.with_environments(after)),
        ),
{
    match defining_scope(s.heap.environments, at, token.lexeme@) {
        Some(scope) => {
            lemma_defined(s, scope, token.lexeme@, value);
        },
        None => {},
    }
}

proof fn lemma_assigned_at(s: InterpreterView, at: usize, distance: usize, token: Rc<Token>, value: ValueView)
    requires
        well_formed(s),
    ensures
        assign_at(s.heap.environments, at, distance, token, value) matches Ok(after) ==> kept(
            s,
            s.with_heap(s.heap.with_environments(after)),
        ),
{
    match ancestor(s.heap.environments, at, distance) {
        Some(scope) => {
            lemma_defined(s, scope, token.lexeme@, value);
        },
        None => {},
    }
}

/// Binding parameters binds names in one scope.
proof fn lemma_params_bound(
    scopes: Seq<EnvironmentView>,
    scope: usize,
    params: List<Rc<Token>>,
    args: Seq<ValueView>,
    i: int,
    globals: usize,
)
    requires
        scopes_rooted(scopes, globals),
    ensures
        bind_params(scopes, scope, params, args, i).len() == scopes.len(),
        scopes_rooted(bind_params(scopes, scope, params, args, i), globals),
    decreases params,
{
    match params {
        List::Nil => {},
        List::Cons(param, rest) => {
            if 0 <= i < args.len() {
                lemma_define_shape(scopes, scope, param.lexeme@, args[i], globals);
                lemma_params_bound(
                    define(scopes, scope, param.lexeme@, args[i]),
                    scope,
                    *rest,
                    args,
                    i + 1,
                    globals,
                );
            }
        },
    }
}

/// The methods of a class close over the scope that they were made in, and
/// are held under their names.
proof fn lemma_methods_close_over(methods: List<Rc<Func>>, scope: usize, found: Map<Seq<u8>, LaxFn>)
    requires
        forall|name: Seq<u8>|
            found.contains_key(name) ==> (#[trigger] found[name]).closure == scope && method_named(
                found[name],
                name,
            ),
    ensures
        forall|name: Seq<u8>|
            methods_of(methods, scope, found).contains_key(name) ==> (#[trigger] methods_of(
                methods,
                scope,
                found,
            )[name]).closure == scope && method_named(methods_of(methods, scope, found)[name], name),
    decreases methods,
{
    match methods {
        List::Nil => {},
        List::Cons(first, rest) => {
            let next = found.insert(
                first.token.lexeme@,
                LaxFn {
                    declaration: *first,
                    closure: scope,
                    is_init: first.token.lexeme@ == bytes_of("init"),
                },
            );
            assert forall|name: Seq<u8>| next.contains_key(name) implies (#[trigger] next[name]).closure
                == scope && method_named(next[name], name) by {
                if name != first.token.lexeme@ {
                    assert(found.contains_key(name));
                }
            }
            lemma_methods_close_over(*rest, scope, next);
        },
    }
}

proof fn lemma_class_declared(s: InterpreterView, stmt: Class, superclass: Option<usize>, scope: usize)
    requires
        well_formed(s),
        scope < s.heap.environments.len(),
    ensures
        kept(s, declare_class(s, stmt, superclass, scope).state),
{
    let class = LaxClassView {
        name: stmt.token.lexeme@,
        methods: methods_of(stmt.methods, scope, Map::empty()),
        superclass,
    };
    lemma_methods_close_over(stmt.methods, scope, Map::empty());
    lemma_new_class(s, class);
    let made = s.with_heap(s.heap.with_new_class(class));
    let value = ValueView::Callable(Callable::LaxClass(s.heap.classes.len() as usize));
    lemma_assigned(made, scope, stmt.token, value);
    match assign(made.heap.environments, scope, stmt.token, value) {
        Ok(after) => {
            lemma_kept_trans(s, made, made.with_heap(made.heap.with_environments(after)));
        },
        Err(_) => {},
    }
}

proof fn lemma_class(s: InterpreterView, stmt: Class)
    requires
        well_formed(s),
    ensures
        kept(s, visit_class_stmt(s, stmt).state),
{
    lemma_defined(s, s.environment, stmt.token.lexeme@, ValueView::Nil);
    let named = s.define(stmt.token.lexeme@, ValueView::Nil);
    match stmt.superclass {
        Some(var) => {
            match lookup_variable(named, var.token, var.id) {
                Ok(ValueView::Callable(Callable::LaxClass(parent))) => {
                    let scope = named.heap.environments.len() as usize;
                    lemma_new_environment(named, named.environment);
                    let opened = named.with_heap(named.heap.with_new_environment(Some(named.environment)));
                    let value = ValueView::Callable(Callable::LaxClass(parent));
                    lemma_defined(opened, scope, bytes_of("super"), value);
                    let inner = opened.with_heap(opened.heap.define(scope, bytes_of("super"), value));
                    lemma_define_shape(opened.heap.environments, scope, bytes_of("super"), value, s.globals);
                    lemma_class_declared(inner, stmt, Some(parent), scope);
                    lemma_kept_trans(named, opened, inner);
                    lemma_kept_trans(named, inner, declare_class(inner, stmt, Some(parent), scope).state);
                    lemma_kept_trans(s, named, declare_class(inner, stmt, Some(parent), scope).state);
                },
                _ => {},
            }
        },
        None => {
            lemma_class_declared(named, stmt, None, named.environment);
            lemma_kept_trans(s, named, declare_class(named, stmt, None, named.environment).state);
        },
    }
}

proof fn lemma_function_declared(s: InterpreterView, stmt: Rc<Func>)
    requires
        well_formed(s),
    ensures
        kept(s, visit_func_stmt(s, stmt).state),
{
    let function = LaxFn { declaration: stmt, closure: s.environment, is_init: false };
    lemma_new_function(s, function);
    let made = s.with_heap(s.heap.with_new_function(function));
    let value = ValueView::Callable(Callable::LaxFn(s.heap.functions.len() as usize));
    lemma_defined(made, made.environment, stmt.token.lexeme@, value);
    lemma_kept_trans(s, made, made.define(stmt.token.lexeme@, value));
}

/// Giving up the scopes of a block or a call is a step on from the state
/// before the block or the call.
proof fn lemma_released(s: InterpreterView, r: InterpreterView)
    requires
        well_formed(s),
        well_formed(r),
        a_step_inside(s, r),
    ensures
        kept(
            s,
            r.with_heap(
                r.heap.released(s.heap.functions.len(), s.heap.classes.len(), s.heap.environments.len()),
            ).with_environment(s.environment),
        ),
{
    let after = r.heap.released(s.heap.functions.len(), s.heap.classes.len(), s.heap.environments.len());
    if r.heap.functions.len() == s.heap.functions.len() && r.heap.classes.len() == s.heap.classes.len()
        && s.heap.environments.len() <= r.heap.environments.len() {
        assert(after.environments.len() == s.heap.environments.len());
        assert forall|j: int| 0 <= j < after.environments.len() implies (
        #[trigger] r.heap.environments[j]).enclosing == (#[trigger] after.environments[j]).enclosing by {}
        assert forall|i: int| 0 <= i < after.environments.len() implies ((
        #[trigger] after.environments[i]).enclosing matches Some(outer) ==> outer < i) by {
            assert(after.environments[i] == r.heap.environments[i]);
        }
        assert forall|i: int| 0 <= i < after.environments.len() implies #[trigger] leads_to(
            after.environments,
            i,
            s.globals as int,
        ) by {
            assert(leads_to(r.heap.environments, i, s.globals as int));
            lemma_leads_to_by_links(r.heap.environments, after.environments, i, s.globals as int);
        }
        assert forall|f: int| 0 <= f < after.functions.len() implies (#[trigger] after.functions[f]).closure
            < after.environments.len() by {
            assert(r.heap.functions[f] == s.heap.functions[f]);
        }
        assert forall|c: int, name: Seq<u8>|
            0 <= c < after.classes.len() && (#[trigger] after.classes[c]).methods.contains_key(
                name,
            ) implies (#[trigger] after.classes[c].methods[name]).closure < after.environments.len() by {
            assert(r.heap.classes[c] == s.heap.classes[c]);
            assert(s.heap.classes[c].methods.contains_key(name));
        }
    }
}

/// `r` comes from `s` by steps inside a scope of its own: as `grown`, but
/// for the active scope.
pub open spec fn a_step_inside(s: InterpreterView, r: InterpreterView) -> bool {
    grown(s.with_environment(r.environment), r)
}

proof fn lemma_evaluate(s: InterpreterView, expr: Expr, fuel: nat)
    requires
        well_formed(s),
    ensures
        kept(s, evaluate(s, expr, fuel).state),
    decreases fuel, 1int, expr, 0int,
{
    match expr {
        Expr::Binary(e) => lemma_binary(s, e, fuel),
        Expr::Grouping(e) => lemma_evaluate(s, *e.expr, fuel),
        Expr::Literal(_) => {},
        Expr::Unary(e) => lemma_unary(s, e, fuel),
        Expr::Var(_) => {},
        Expr::Assign(e) => lemma_assign(s, e, fuel),
        Expr::Logical(e) => lemma_logical(s, e, fuel),
        Expr::Call(e) => lemma_call(s, e, fuel),
        Expr::Get(e) => lemma_get(s, e, fuel),
        Expr::SetField(e) => lemma_set(s, e, fuel),
        Expr::This(_) => {},
        Expr::Super(e) => lemma_super(s, e),
    }
}

proof fn lemma_unary(s: InterpreterView, expr: Unary, fuel: nat)
    requires
        well_formed(s),
    ensures
        kept(s, visit_unary_expr(s, expr, fuel).state),
    decreases fuel, 1int, expr, 0int,
{
    lemma_evaluate(s, *expr.right, fuel);
}

proof fn lemma_binary(s: InterpreterView, expr: Binary, fuel: nat)
    requires
        well_formed(s),
    ensures
        kept(s, visit_binary_expr(s, expr, fuel).state),
    decreases fuel, 1int, expr, 0int,
{
    lemma_evaluate(s, *expr.left, fuel);
    let left = evaluate(s, *expr.left, fuel);
    if left.result is Ok {
        lemma_evaluate(left.state, *expr.right, fuel);
        lemma_kept_trans(s, left.state, evaluate(left.state, *expr.right, fuel).state);
    }
}

proof fn lemma_logical(s: InterpreterView, expr: Logical, fuel: nat)
    requires
        well_formed(s),
    ensures
        kept(s, visit_logical_expr(s, expr, fuel).state),
    decreases fuel, 1int, expr, 0int,
{
    lemma_evaluate(s, *expr.left, fuel);
    let left = evaluate(s, *expr.left, fuel);
    if left.result is Ok {
        lemma_evaluate(left.state, *expr.right, fuel);
        lemma_kept_trans(s, left.state, evaluate(left.state, *expr.right, fuel).state);
    }
}

proof fn lemma_assign(s: InterpreterView, expr: Assign, fuel: nat)
    requires
        well_formed(s),
    ensures
        kept(s, visit_assign_expr(s, expr, fuel).state),
    decreases fuel, 1int, expr, 0int,
{
    lemma_evaluate(s, *expr.value, fuel);
    let assigned = evaluate(s, *expr.value, fuel);
    if assigned.result is Ok {
        let s1 = assigned.state;
        if s1.locals.contains_key(expr.id) {
            lemma_assigned_at(s1, s1.environment, s1.locals[expr.id], expr.token, got(assigned));
            match assign_at(s1.heap.environments, s1.environment, s1.locals[expr.id], expr.token, got(assigned)) {
                Ok(after) => {
                    lemma_kept_trans(s, s1, s1.with_heap(s1.heap.with_environments(after)));
                },
                Err(_) => {},
            }
        } else {
            lemma_assigned(s1, s1.globals, expr.token, got(assigned));
            match assign(s1.heap.environments, s1.globals, expr.token, got(assigned)) {
                Ok(after) => {
                    lemma_kept_trans(s, s1, s1.with_heap(s1.heap.with_environments(after)));
                },
                Err(_) => {},
            }
        }
    }
}

proof fn lemma_args(s: InterpreterView, args: List<Expr>, fuel: nat, found: Seq<ValueView>)
    requires
        well_formed(s),
    ensures
        kept(s, evaluate_args(s, args, fuel, found).state),
    decreases fuel, 1int, args, 0int,
{
    match args {
        List::Nil => {},
        List::Cons(first, rest) => {
            lemma_evaluate(s, *first, fuel);
            let arg = evaluate(s, *first, fuel);
            match arg.result {
                Ok(v) => {
                    lemma_args(arg.state, *rest, fuel, found.push(v));
                    lemma_kept_trans(s, arg.state, evaluate_args(arg.state, *rest, fuel, found.push(v)).state);
                },
                Err(_) => {},
            }
        },
    }
}

proof fn lemma_call(s: InterpreterView, expr: Call, fuel: nat)
    requires
        well_formed(s),
    ensures
        kept(s, visit_call_expr(s, expr, fuel).state),
    decreases fuel, 1int, expr, 0int,
{
    lemma_evaluate(s, *expr.callee, fuel);
    let callee = evaluate(s, *expr.callee, fuel);
    match callee.result {
        Ok(ValueView::Callable(function)) => {
            lemma_args(callee.state, expr.args, fuel, Seq::empty());
            let args = evaluate_args(callee.state, expr.args, fuel, Seq::empty());
            lemma_kept_trans(s, callee.state, args.state);
            match args.result {
                Ok(values) => {
                    if values.len() == args.state.heap.arity(function) {
                        lemma_call_value(args.state, function, values, expr.paren, fuel);
                        lemma_kept_trans(
                            s,
                            args.state,
                            call_value(args.state, function, values, expr.paren, fuel).state,
                        );
                    }
                },
                Err(_) => {},
            }
        },
        _ => {},
    }
}

proof fn lemma_get(s: InterpreterView, expr: Get, fuel: nat)
    requires
        well_formed(s),
    ensures
        kept(s, visit_get_expr(s, expr, fuel).state),
    decreases fuel, 1int, expr, 0int,
{
    lemma_evaluate(s, *expr.object, fuel);
    let object = evaluate(s, *expr.object, fuel);
    match object.result {
        Ok(ValueView::LaxObject(o)) => {
            lemma_property(object.state, o, expr.token);
            lemma_kept_trans(s, object.state, property(object.state, o, expr.token).state);
        },
        _ => {},
    }
}

proof fn lemma_set(s: InterpreterView, expr: SetField, fuel: nat)
    requires
        well_formed(s),
    ensures
        kept(s, visit_set_expr(s, expr, fuel).state),
    decreases fuel, 1int, expr, 0int,
{
    lemma_evaluate(s, *expr.object, fuel);
    let object = evaluate(s, *expr.object, fuel);
    match object.result {
        Ok(ValueView::LaxObject(o)) => {
            lemma_evaluate(object.state, *expr.value, fuel);
            lemma_kept_trans(s, object.state, evaluate(object.state, *expr.value, fuel).state);
        },
        _ => {},
    }
}

proof fn lemma_call_value(s: InterpreterView, callee: Callable, args: Seq<ValueView>, paren: Rc<Token>, fuel: nat)
    requires
        well_formed(s),
    ensures
        kept(s, call_value(s, callee, args, paren, fuel).state),
    decreases fuel, 0int, paren, 3int,
{
    match callee {
        Callable::NativeFn(_) => {},
        Callable::LaxFn(f) => {
            if f < s.heap.functions.len() {
                assert(s.heap.functions[f as int].closure < s.heap.environments.len());
                lemma_call_function(s, s.heap.functions[f as int], args, paren, fuel);
            }
        },
        Callable::LaxClass(class) => {
            lemma_instantiate(s, class, args, paren, fuel);
        },
    }
}

/// The parameters of a closure.
pub open spec fn params_of(function: LaxFn) -> List<Rc<Token>> {
    function.declaration.params
}

/// The body of a closure.
pub open spec fn body_of(function: LaxFn) -> List<Stmt> {
    function.declaration.body
}

proof fn lemma_call_function(s: InterpreterView, function: LaxFn, args: Seq<ValueView>, paren: Rc<Token>, fuel: nat)
    requires
        well_formed(s),
        function.closure < s.heap.environments.len(),
    ensures
        kept(s, call_function(s, function, args, paren, fuel).state),
    decreases fuel, 0int, paren, 1int,
{
    if fuel > 0 {
        let scope = s.heap.environments.len() as usize;
        lemma_new_environment(s, function.closure);
        let entered = s.heap.with_new_environment(Some(function.closure));
        let scopes = bind_params(entered.environments, scope, params_of(function), args, 0);
        lemma_params_bound(entered.environments, scope, params_of(function), args, 0, s.globals);
        let bound = entered.with_environments(scopes);
        lemma_other_scopes(s.with_heap(entered), scopes);
        let ready = s.with_heap(bound);
        assert(kept(s, ready));
        lemma_execute_block(ready, body_of(function), scope, (fuel - 1) as nat);
        let body = execute_block(ready, body_of(function), scope, (fuel - 1) as nat);
        lemma_released(s, body.state);
    }
}

proof fn lemma_instantiate(s: InterpreterView, class: usize, args: Seq<ValueView>, paren: Rc<Token>, fuel: nat)
    requires
        well_formed(s),
    ensures
        kept(s, instantiate(s, class, args, paren, fuel).state),
    decreases fuel, 0int, paren, 2int,
{
    let object = ValueView::LaxObject(s.heap.objects.len() as usize);
    let made = s.with_heap(s.heap.with_new_object(class));
    assert(kept(s, made));
    lemma_found_method(made, class, bytes_of("init"));
    match find_method(made.heap.classes, class, bytes_of("init")) {
        Some(init) => {
            lemma_bound(made, init, object);
            let bound = made.with_heap(made.heap.bind(init, object));
            lemma_call_function(bound, made.heap.bound(init), args, paren, fuel);
            lemma_kept_trans(made, bound, call_function(bound, made.heap.bound(init), args, paren, fuel).state);
            lemma_kept_trans(s, made, call_function(bound, made.heap.bound(init), args, paren, fuel).state);
        },
        None => {},
    }
}

proof fn lemma_execute(s: InterpreterView, stmt: Stmt, fuel: nat)
    requires
        well_formed(s),
    ensures
        kept(s, execute(s, stmt, fuel).state),
    decreases fuel, 3int, stmt, 0int,
{
    match stmt {
        Stmt::StmtExpr(st) => {
            lemma_evaluate(s, st.expr, fuel);
        },
        Stmt::Print(st) => {
            lemma_evaluate(s, st.expr, fuel);
        },
        Stmt::Let(st) => {
            lemma_let(s, st, fuel);
        },
        Stmt::Block(st) => {
            lemma_block(s, st, fuel);
        },
        Stmt::If(st) => {
            lemma_if(s, st, fuel);
        },
        Stmt::While(st) => {
            lemma_while(s, st, fuel);
        },
        Stmt::Func(st) => {
            lemma_function_declared(s, st);
        },
        Stmt::Return(st) => {
            match st.value {
                Some(expr) => {
                    lemma_evaluate(s, expr, fuel);
                },
                None => {},
            }
        },
        Stmt::Class(st) => {
            lemma_class(s, st);
        },
    }
}

proof fn lemma_let(s: InterpreterView, stmt: Let, fuel: nat)
    requires
        well_formed(s),
    ensures
        kept(s, visit_let_stmt(s, stmt, fuel).state),
    decreases fuel, 2int, stmt, 0int,
{
    match stmt.initializer {
        Some(init) => {
            lemma_evaluate(s, init, fuel);
            let e = evaluate(s, init, fuel);
            if e.result is Ok {
                lemma_defined(e.state, e.state.environment, stmt.token.lexeme@, got(e));
                lemma_kept_trans(s, e.state, e.state.define(stmt.token.lexeme@, got(e)));
            }
        },
        None => {
            lemma_defined(s, s.environment, stmt.token.lexeme@, ValueView::Nil);
        },
    }
}

proof fn lemma_block(s: InterpreterView, stmt: Block, fuel: nat)
    requires
        well_formed(s),
    ensures
        kept(s, visit_block_stmt(s, stmt, fuel).state),
    decreases fuel, 3int, stmt, 0int,
{
    let scope = s.heap.environments.len() as usize;
    lemma_new_environment(s, s.environment);
    let ready = s.with_heap(s.heap.with_new_environment(Some(s.environment)));
    lemma_execute_block(ready, stmt.stmts, scope, fuel);
    let body = execute_block(ready, stmt.stmts, scope, fuel);
    lemma_released(s, body.state);
}

proof fn lemma_execute_block(s: InterpreterView, stmts: List<Stmt>, scope: usize, fuel: nat)
    requires
        well_formed(s),
        scope < s.heap.environments.len(),
    ensures
        kept(s, execute_block(s, stmts, scope, fuel).state),
    decreases fuel, 3int, stmts, 1int,
{
    let inside = s.with_environment(scope);
    lemma_execute_stmts(inside, stmts, fuel);
}

proof fn lemma_execute_stmts(s: InterpreterView, stmts: List<Stmt>, fuel: nat)
    requires
        well_formed(s),
    ensures
        kept(s, execute_stmts(s, stmts, fuel).state),
    decreases fuel, 3int, stmts, 0int,
{
    match stmts {
        List::Nil => {},
        List::Cons(first, rest) => {
            lemma_execute(s, *first, fuel);
            let r = execute(s, *first, fuel);
            match r.result {
                Ok(None) => {
                    lemma_execute_stmts(r.state, *rest, fuel);
                    lemma_kept_trans(s, r.state, execute_stmts(r.state, *rest, fuel).state);
                },
                _ => {},
            }
        },
    }
}

proof fn lemma_if(s: InterpreterView, stmt: If, fuel: nat)
    requires
        well_formed(s),
    ensures
        kept(s, visit_if_stmt(s, stmt, fuel).state),
    decreases fuel, 3int, stmt, 0int,
{
    lemma_evaluate(s, stmt.condition, fuel);
    let condition = evaluate(s, stmt.condition, fuel);
    if condition.result is Ok {
        if crate::token::truthy(got(condition)) {
            lemma_execute(condition.state, *stmt.body, fuel);
            lemma_kept_trans(s, condition.state, execute(condition.state, *stmt.body, fuel).state);
        } else {
            match stmt.else_body {
                Some(other) => {
                    lemma_execute(condition.state, *other, fuel);
                    lemma_kept_trans(s, condition.state, execute(condition.state, *other, fuel).state);
                },
                None => {},
            }
        }
    }
}

proof fn lemma_while(s: InterpreterView, stmt: While, fuel: nat)
    requires
        well_formed(s),
    ensures
        kept(s, visit_while_stmt(s, stmt, fuel).state),
    decreases fuel, 3int, stmt, 0int,
{
    lemma_evaluate(s, stmt.condition, fuel);
    let condition = evaluate(s, stmt.condition, fuel);
    if condition.result is Ok && crate::token::truthy(got(condition)) {
        lemma_execute(condition.state, *stmt.body, fuel);
        let body = execute(condition.state, *stmt.body, fuel);
        lemma_kept_trans(s, condition.state, body.state);
        match body.result {
            Ok(None) => {
                if fuel > 0 {
                    lemma_while(body.state, stmt, (fuel - 1) as nat);
                    lemma_kept_trans(s, body.state, visit_while_stmt(body.state, stmt, (fuel - 1) as nat).state);
                }
            },
            _ => {},
        }
    }
}

proof fn lemma_interpret_from(s: InterpreterView, stmts: Seq<Stmt>, i: int, fuel: nat)
    requires
        well_formed(s),
    ensures
        kept(s, interpret_from(s, stmts, i, fuel).state),
    decreases stmts.len() - i,
{
    if 0 <= i < stmts.len() {
        lemma_execute(s, stmts[i], fuel);
        let r = execute(s, stmts[i], fuel);
        if r.result is Ok {
            lemma_interpret_from(r.state, stmts, i + 1, fuel);
            lemma_kept_trans(s, r.state, interpret_from(r.state, stmts, i + 1, fuel).state);
        }
    }
}

/// The state that every run begins in is well formed.
pub proof fn initial_state_is_well_formed()
    ensures
        well_formed(initial_state()),
{
    let s = initial_state();
    let scopes = s.heap.environments;
    assert(scopes.len() == 2);
    assert(s.heap.functions.len() == 0);
    assert(s.heap.classes.len() == 0);
    assert(scopes[0].enclosing is None);
    assert(scopes[1].enclosing == Some(0usize));
    assert(scopes[0].values.contains_key(bytes_of("clock")));
    assert(leads_to(scopes, 0, 0));
    assert(leads_to(scopes, 1, 0));
}

/// Whatever the expression and the budget: where the state is well formed,
/// so is the state that evaluation leaves; and that state holds every
/// closure and every class of the state before, at its place.
pub proof fn evaluation_keeps_the_state_well_formed(s: InterpreterView, expr: Expr, fuel: nat)
    requires
        well_formed(s),
    ensures
        well_formed(evaluate(s, expr, fuel).state),
        grown(s, evaluate(s, expr, fuel).state),
{
    lemma_evaluate(s, expr, fuel);
}

/// Whatever the statement and the budget: where the state is well formed,
/// so is the state that execution leaves; and that state holds every
/// closure and every class of the state before, at its place.
pub proof fn execution_keeps_the_state_well_formed(s: InterpreterView, stmt: Stmt, fuel: nat)
    requires
        well_formed(s),
    ensures
        well_formed(execute(s, stmt, fuel).state),
        grown(s, execute(s, stmt, fuel).state),
{
    lemma_execute(s, stmt, fuel);
}

/// Whatever the program and the budget: where the state is well formed, so
/// is the state that the run leaves.
pub proof fn run_keeps_the_state_well_formed(s: InterpreterView, stmts: Seq<Stmt>, fuel: nat)
    requires
        well_formed(s),
    ensures
        well_formed(interpret(s, stmts, fuel).state),
        grown(s, interpret(s, stmts, fuel).state),
{
    lemma_interpret_from(s, stmts, 0, fuel);
}

} // verus!
