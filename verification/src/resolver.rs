//! The resolver: a pass over the syntax tree, before it runs, that finds
//! for each use of a variable how many scopes out it is defined, and that
//! reports what the static rules of the language forbid.
//!
//! `resolve` says, for every program, which distances and which reports
//! come out of it; `Resolver::resolve` computes exactly that.

use crate::ast::expr::Assign;
use crate::ast::expr::Binary;
use crate::ast::expr::Call;
use crate::ast::expr::Expr;
use crate::ast::expr::Get;
use crate::ast::expr::Grouping;
use crate::ast::expr::Logical;
use crate::ast::expr::SetField;
use crate::ast::expr::Super;
use crate::ast::expr::This;
use crate::ast::expr::Unary;
use crate::ast::expr::Var;
use crate::ast::list::List;
use crate::ast::stmt::Block;
use crate::ast::stmt::Class;
use crate::ast::stmt::Func;
use crate::ast::stmt::If;
use crate::ast::stmt::Let;
use crate::ast::stmt::Print;
use crate::ast::stmt::Return;
use crate::ast::stmt::Stmt;
use crate::ast::stmt::StmtExpr;
use crate::ast::stmt::While;
use crate::callables::callable::FuncType;
use crate::error::Diagnostic;
use crate::error::ErrorStatus;
use crate::error::Message;
use crate::error::ParseError;
use crate::error::RuntimeError;
use crate::interpreter::Interpreter;
use crate::semantics::InterpreterView;
use crate::table::Table;
use crate::text::bytes_of;
use crate::text::is_text;
use crate::text::same_bytes;
use crate::text::share;
use crate::text::to_bytes;
use crate::token::Token;
use std::rc::Rc;
use vstd::prelude::*;

verus! {

/// The kind of class body that is being looked at.
#[derive(Debug, Clone, Copy, PartialEq, Eq, Structural)]
pub enum ClassType {
    /// A class without a superclass.
    Class,
    /// A class with a superclass.
    SubClass,
    /// Outside every class.
    Toplevel,
}

/// The place where a name was used: the name, and the scopes that were
/// open there, innermost last.
pub struct Site {
    pub name: Seq<u8>,
    pub scopes: Seq<Map<Seq<u8>, bool>>,
}

/// The state of a resolution: the scopes that are open, innermost last,
/// each with its names and whether each name is defined yet; the kind of
/// function and of class that is being looked at; the distances found so
/// far, by the identifier of the expression; for each distance that this
/// resolution found, the place where the name was used; what was reported
/// so far, and whether anything was.
pub struct ResolverView {
    pub scopes: Seq<Map<Seq<u8>, bool>>,
    pub func_type: FuncType,
    pub class_type: ClassType,
    pub locals: Map<u64, usize>,
    pub sites: Map<u64, Site>,
    pub reports: Seq<Diagnostic>,
    pub failed: bool,
}

/// How many scopes out from the innermost, from `depth` on, the nearest
/// scope lies that holds `name`.
pub open spec fn depth_from(scopes: Seq<Map<Seq<u8>, bool>>, name: Seq<u8>, depth: nat) -> Option<usize>
    decreases scopes.len() - depth,
{
    if depth >= scopes.len() || depth > usize::MAX {
        None
    } else if scopes[scopes.len() - 1 - depth].contains_key(name) {
        Some(depth as usize)
    } else {
        depth_from(scopes, name, depth + 1)
    }
}

impl ResolverView {
    /// The state with one more report.
    pub open spec fn report(self, token: Rc<Token>, message: &'static str) -> ResolverView {
        ResolverView {
            reports: self.reports.push(
                Diagnostic::Runtime(RuntimeError { token, message: Message::Text(message) }),
            ),
            failed: true,
            ..self
        }
    }

    pub open spec fn begin_scope(self) -> ResolverView {
        ResolverView { scopes: self.scopes.push(Map::empty()), ..self }
    }

    pub open spec fn end_scope(self) -> ResolverView {
        if self.scopes.len() > 0 {
            ResolverView { scopes: self.scopes.drop_last(), ..self }
        } else {
            self
        }
    }

    /// The state with `name` marked in the innermost scope, if one is open.
    pub open spec fn put(self, name: Seq<u8>, defined: bool) -> ResolverView {
        if self.scopes.len() > 0 {
            ResolverView {
                scopes: self.scopes.update(self.scopes.len() - 1, self.scopes.last().insert(name, defined)),
                ..self
            }
        } else {
            self
        }
    }

    /// The name is in the innermost scope, not yet defined. To declare it
    /// twice in one scope is an error.
    pub open spec fn declare(self, token: Rc<Token>) -> ResolverView {
        if self.scopes.len() == 0 {
            self
        } else if self.scopes.last().contains_key(token.lexeme@) {
            self.report(token, "Already variable with this name declared in this scope.").put(
                token.lexeme@,
                false,
            )
        } else {
            self.put(token.lexeme@, false)
        }
    }

    /// The name is in the innermost scope, defined.
    pub open spec fn define(self, token: Rc<Token>) -> ResolverView {
        self.put(token.lexeme@, true)
    }

    /// Whether the name is declared in the innermost scope and not yet
    /// defined there.
    pub open spec fn is_accessed_in_initializer(self, name: Seq<u8>) -> bool {
        self.scopes.len() > 0 && self.scopes.last().contains_key(name) && !self.scopes.last()[name]
    }

    /// The distance of `token`'s name, recorded for the expression `id`,
    /// where some open scope holds the name; nothing where none does.
    pub open spec fn resolve_local(self, id: u64, token: Rc<Token>) -> ResolverView {
        match depth_from(self.scopes, token.lexeme@, 0) {
            Some(depth) => ResolverView {
                locals: self.locals.insert(id, depth),
                sites: self.sites.insert(id, Site { name: token.lexeme@, scopes: self.scopes }),
                ..self
            },
            None => self,
        }
    }

    pub open spec fn with_func_type(self, func_type: FuncType) -> ResolverView {
        ResolverView { func_type, ..self }
    }

    pub open spec fn with_class_type(self, class_type: ClassType) -> ResolverView {
        ResolverView { class_type, ..self }
    }
}

/// To read a variable in its own initializer is an error.
pub open spec fn visit_var_expr(s: ResolverView, expr: Var) -> ResolverView {
    if s.is_accessed_in_initializer(expr.token.lexeme@) {
        ResolverView {
            reports: s.reports.push(
                Diagnostic::Parse(
                    ParseError {
                        token: expr.token,
                        message: "Can't read local variable in its own initializer.",
                    },
                ),
            ),
            failed: true,
            ..s
        }.resolve_local(expr.id, expr.token)
    } else {
        s.resolve_local(expr.id, expr.token)
    }
}

/// `this` outside every class is an error.
pub open spec fn visit_this_expr(s: ResolverView, expr: This) -> ResolverView {
    if s.class_type == ClassType::Toplevel {
        s.report(expr.keyword, "Can't use 'this' outside of a class.")
    } else {
        s.resolve_local(expr.id, expr.keyword)
    }
}

/// `super` outside every class, and in a class without a superclass, is an
/// error.
pub open spec fn visit_super_expr(s: ResolverView, expr: Super) -> ResolverView {
    match s.class_type {
        ClassType::Toplevel => s.report(expr.keyword, "Can't use 'super' outside of a class."),
        ClassType::Class => s.report(expr.keyword, "Can't use 'super' in a class with no superclass."),
        ClassType::SubClass => s.resolve_local(expr.id, expr.keyword),
    }
}

/// The parameters of a function.
pub open spec fn params_of(func: Rc<Func>) -> List<Rc<Token>> {
    func.params
}

/// The body of a function.
pub open spec fn body_of(func: Rc<Func>) -> List<Stmt> {
    func.body
}

/// The token that names a function.
pub open spec fn name_of(func: Rc<Func>) -> Rc<Token> {
    func.token
}

/// The parameters of a function, each declared and defined.
pub open spec fn resolve_params(s: ResolverView, params: List<Rc<Token>>) -> ResolverView
    decreases params,
{
    match params {
        List::Nil => s,
        List::Cons(first, rest) => resolve_params(s.declare(*first).define(*first), *rest),
    }
}

pub open spec fn resolve_expr(s: ResolverView, expr: Expr) -> ResolverView
    decreases 1int, expr, 0int,
{
    match expr {
        Expr::Binary(e) => visit_binary_expr(s, e),
        Expr::Grouping(e) => visit_grouping_expr(s, e),
        Expr::Literal(_) => s,
        Expr::Unary(e) => visit_unary_expr(s, e),
        Expr::Var(e) => visit_var_expr(s, e),
        Expr::Assign(e) => visit_assign_expr(s, e),
        Expr::Logical(e) => visit_logical_expr(s, e),
        Expr::Call(e) => visit_call_expr(s, e),
        Expr::Get(e) => visit_get_expr(s, e),
        Expr::SetField(e) => visit_set_expr(s, e),
        Expr::This(e) => visit_this_expr(s, e),
        Expr::Super(e) => visit_super_expr(s, e),
    }
}

pub open spec fn resolve_exprs(s: ResolverView, exprs: List<Expr>) -> ResolverView
    decreases 1int, exprs, 0int,
{
    match exprs {
        List::Nil => s,
        List::Cons(first, rest) => resolve_exprs(resolve_expr(s, *first), *rest),
    }
}

pub open spec fn visit_binary_expr(s: ResolverView, expr: Binary) -> ResolverView
    decreases 1int, expr, 0int,
{
    resolve_expr(resolve_expr(s, *expr.left), *expr.right)
}

pub open spec fn visit_logical_expr(s: ResolverView, expr: Logical) -> ResolverView
    decreases 1int, expr, 0int,
{
    resolve_expr(resolve_expr(s, *expr.left), *expr.right)
}

pub open spec fn visit_grouping_expr(s: ResolverView, expr: Grouping) -> ResolverView
    decreases 1int, expr, 0int,
{
    resolve_expr(s, *expr.expr)
}

pub open spec fn visit_unary_expr(s: ResolverView, expr: Unary) -> ResolverView
    decreases 1int, expr, 0int,
{
    resolve_expr(s, *expr.right)
}

pub open spec fn visit_assign_expr(s: ResolverView, expr: Assign) -> ResolverView
    decreases 1int, expr, 0int,
{
    resolve_expr(s, *expr.value).resolve_local(expr.id, expr.token)
}

pub open spec fn visit_call_expr(s: ResolverView, expr: Call) -> ResolverView
    decreases 1int, expr, 0int,
{
    resolve_exprs(resolve_expr(s, *expr.callee), expr.args)
}

pub open spec fn visit_get_expr(s: ResolverView, expr: Get) -> ResolverView
    decreases 1int, expr, 0int,
{
    resolve_expr(s, *expr.object)
}

pub open spec fn visit_set_expr(s: ResolverView, expr: SetField) -> ResolverView
    decreases 1int, expr, 0int,
{
    resolve_expr(resolve_expr(s, *expr.value), *expr.object)
}

pub open spec fn resolve_stmt(s: ResolverView, stmt: Stmt) -> ResolverView
    decreases 3int, stmt, 0int,
{
    match stmt {
        Stmt::StmtExpr(st) => visit_expr_stmt(s, st),
        Stmt::Print(st) => visit_print_stmt(s, st),
        Stmt::Let(st) => visit_let_stmt(s, st),
        Stmt::Block(st) => visit_block_stmt(s, st),
        Stmt::If(st) => visit_if_stmt(s, st),
        Stmt::While(st) => visit_while_stmt(s, st),
        Stmt::Func(st) => visit_func_stmt(s, st),
        Stmt::Return(st) => visit_return_stmt(s, st),
        Stmt::Class(st) => visit_class_stmt(s, st),
    }
}

pub open spec fn resolve_stmts(s: ResolverView, stmts: List<Stmt>) -> ResolverView
    decreases 3int, stmts, 0int,
{
    match stmts {
        List::Nil => s,
        List::Cons(first, rest) => resolve_stmts(resolve_stmt(s, *first), *rest),
    }
}

/// A function: a scope of its own for its parameters and its body.
pub open spec fn resolve_func(s: ResolverView, func: Rc<Func>, func_type: FuncType) -> ResolverView
    decreases 3int, func, 0int,
{
    resolve_stmts(
        resolve_params(s.with_func_type(func_type).begin_scope(), params_of(func)),
        body_of(func),
    ).end_scope().with_func_type(s.func_type)
}

pub open spec fn visit_block_stmt(s: ResolverView, stmt: Block) -> ResolverView
    decreases 3int, stmt, 0int,
{
    resolve_stmts(s.begin_scope(), stmt.stmts).end_scope()
}

/// A variable is declared before its initializer and defined behind it.
pub open spec fn visit_let_stmt(s: ResolverView, stmt: Let) -> ResolverView
    decreases 2int, stmt, 0int,
{
    match stmt.initializer {
        Some(init) => resolve_expr(s.declare(stmt.token), init).define(stmt.token),
        None => s.declare(stmt.token).define(stmt.token),
    }
}

pub open spec fn visit_func_stmt(s: ResolverView, stmt: Rc<Func>) -> ResolverView
    decreases 3int, stmt, 1int,
{
    resolve_func(s.declare(name_of(stmt)).define(name_of(stmt)), stmt, FuncType::Function)
}

pub open spec fn visit_expr_stmt(s: ResolverView, stmt: StmtExpr) -> ResolverView
    decreases 2int, stmt, 0int,
{
    resolve_expr(s, stmt.expr)
}

pub open spec fn visit_if_stmt(s: ResolverView, stmt: If) -> ResolverView
    decreases 3int, stmt, 0int,
{
    let s1 = resolve_stmt(resolve_expr(s, stmt.condition), *stmt.body);
    match stmt.else_body {
        Some(other) => resolve_stmt(s1, *other),
        None => s1,
    }
}

pub open spec fn visit_print_stmt(s: ResolverView, stmt: Print) -> ResolverView
    decreases 2int, stmt, 0int,
{
    resolve_expr(s, stmt.expr)
}

/// `return` outside every function is an error, and so is `return` with a
/// value in an initializer.
pub open spec fn visit_return_stmt(s: ResolverView, stmt: Return) -> ResolverView
    decreases 2int, stmt, 0int,
{
    let s1 = if s.func_type == FuncType::Toplevel {
        s.report(stmt.keyword, "Can't return from top-level code.")
    } else {
        s
    };
    match stmt.value {
        Some(value) => resolve_expr(
            if s1.func_type == FuncType::Initializer {
                s1.report(stmt.keyword, "Can't return a value from an initializer.")
            } else {
                s1
            },
            value,
        ),
        None => s1,
    }
}

pub open spec fn visit_while_stmt(s: ResolverView, stmt: While) -> ResolverView
    decreases 3int, stmt, 0int,
{
    resolve_stmt(resolve_expr(s, stmt.condition), *stmt.body)
}

/// The kind of a method: the one named `init` is the initializer.
pub open spec fn method_type(func: Rc<Func>) -> FuncType {
    if func.token.lexeme@ == bytes_of("init") {
        FuncType::Initializer
    } else {
        FuncType::Method
    }
}

/// The methods of a class, each in a scope of its own.
pub open spec fn resolve_methods(s: ResolverView, methods: List<Rc<Func>>) -> ResolverView
    decreases 3int, methods, 0int,
{
    match methods {
        List::Nil => s,
        List::Cons(first, rest) => resolve_methods(
            resolve_func(s, *first, method_type(*first)),
            *rest,
        ),
    }
}

/// The superclass of a class: a class that names itself is an error.
pub open spec fn resolve_superclass(s: ResolverView, token: Rc<Token>, superclass: Var) -> ResolverView {
    visit_var_expr(
        if token.lexeme@ == superclass.token.lexeme@ {
            s.with_class_type(ClassType::SubClass).report(
                superclass.token,
                "A class can't inherit from itself.",
            )
        } else {
            s.with_class_type(ClassType::SubClass)
        },
        superclass,
    ).begin_scope().put(bytes_of("super"), true)
}

/// A class: its name; with a superclass, a scope that holds `super`; a
/// scope that holds `this`; in it, the methods.
pub open spec fn visit_class_stmt(s: ResolverView, stmt: Class) -> ResolverView
    decreases 3int, stmt, 0int,
{
    let named = s.with_class_type(ClassType::Class).declare(stmt.token).define(stmt.token);
    let entered = match stmt.superclass {
        Some(superclass) => resolve_superclass(named, stmt.token, superclass),
        None => named,
    };
    let inner = resolve_methods(entered.begin_scope().put(bytes_of("this"), true), stmt.methods).end_scope();
    (if stmt.superclass is Some {
        inner.end_scope()
    } else {
        inner
    }).with_class_type(s.class_type)
}

/// The statements of a program from the `i`-th on.
pub open spec fn resolve_from(s: ResolverView, stmts: Seq<Stmt>, i: int) -> ResolverView
    decreases stmts.len() - i,
{
    if 0 <= i < stmts.len() {
        resolve_from(resolve_stmt(s, stmts[i]), stmts, i + 1)
    } else {
        s
    }
}

/// A program, in a scope of its own.
pub open spec fn resolve(s: ResolverView, stmts: Seq<Stmt>) -> ResolverView {
    resolve_from(s.begin_scope(), stmts, 0).end_scope()
}

/// Whether the scope `distance` scopes out from the innermost holds `name`.
pub open spec fn holds(scopes: Seq<Map<Seq<u8>, bool>>, name: Seq<u8>, distance: int) -> bool {
    0 <= distance < scopes.len() && scopes[scopes.len() - 1 - distance].contains_key(name)
}

/// The scope `distance` scopes out from the innermost is the nearest that
/// holds `name`.
pub open spec fn nearest(scopes: Seq<Map<Seq<u8>, bool>>, name: Seq<u8>, distance: int) -> bool {
    holds(scopes, name, distance) && forall|nearer: int|
        0 <= nearer < distance ==> !#[trigger] holds(scopes, name, nearer)
}

/// Where `depth_from` finds a distance, the scope that many scopes out from
/// the innermost holds the name, and no scope nearer than it, from `from`
/// on, does.
pub proof fn depth_names_the_nearest_defining_scope(scopes: Seq<Map<Seq<u8>, bool>>, name: Seq<u8>, from: nat)
    ensures
        depth_from(scopes, name, from) matches Some(depth) ==> {
            &&& from <= depth
            &&& holds(scopes, name, depth as int)
            &&& forall|nearer: int| from <= nearer < depth ==> !#[trigger] holds(scopes, name, nearer)
        },
    decreases scopes.len() - from,
{
    if from < scopes.len() && from <= usize::MAX && !scopes[scopes.len() - 1 - from].contains_key(name) {
        depth_names_the_nearest_defining_scope(scopes, name, from + 1);
        assert(!holds(scopes, name, from as int));
        match depth_from(scopes, name, from) {
            Some(depth) => {
                assert forall|nearer: int| from <= nearer < depth implies !#[trigger] holds(
                    scopes,
                    name,
                    nearer,
                ) by {
                    if nearer > from {
                        assert(from + 1 <= nearer);
                    }
                }
            },
            None => {},
        }
    }
}

/// Every distance that this resolution recorded leads, from the innermost
/// of the scopes that were open where the name was used, to the nearest
/// scope that holds the name.
pub open spec fn sound(s: ResolverView) -> bool {
    forall|id: u64| #[trigger]
        s.sites.contains_key(id) ==> s.locals.contains_key(id) && nearest(
            s.sites[id].scopes,
            s.sites[id].name,
            s.locals[id] as int,
        )
}

/// Two states hold the same distances and the same places of use.
pub open spec fn same_findings(a: ResolverView, b: ResolverView) -> bool {
    a.locals == b.locals && a.sites == b.sites
}

/// Whatever the state, the distance that `resolve_local` records for an
/// expression leads from the innermost open scope to the nearest scope that
/// holds the name; what was sound before stays so.
pub proof fn resolve_local_is_sound(s: ResolverView, id: u64, token: Rc<Token>)
    requires
        sound(s),
    ensures
        sound(s.resolve_local(id, token)),
        s.resolve_local(id, token).scopes == s.scopes,
        s.resolve_local(id, token).locals != s.locals ==> nearest(
            s.scopes,
            token.lexeme@,
            s.resolve_local(id, token).locals[id] as int,
        ),
{
    depth_names_the_nearest_defining_scope(s.scopes, token.lexeme@, 0);
    let after = s.resolve_local(id, token);
    match depth_from(s.scopes, token.lexeme@, 0) {
        Some(depth) => {
            assert(nearest(s.scopes, token.lexeme@, depth as int));
            assert forall|other: u64| #[trigger] after.sites.contains_key(other) implies after.locals.contains_key(
                other,
            ) && nearest(after.sites[other].scopes, after.sites[other].name, after.locals[other] as int) by {
                if other != id {
                    assert(s.sites.contains_key(other));
                }
            }
        },
        None => {},
    }
}

proof fn lemma_params_sound(s: ResolverView, params: List<Rc<Token>>)
    ensures
        same_findings(resolve_params(s, params), s),
    decreases params,
{
    match params {
        List::Nil => {},
        List::Cons(first, rest) => {
            lemma_params_sound(s.declare(*first).define(*first), *rest);
        },
    }
}

proof fn lemma_var_sound(s: ResolverView, expr: Var)
    requires
        sound(s),
    ensures
        sound(visit_var_expr(s, expr)),
{
    if s.is_accessed_in_initializer(expr.token.lexeme@) {
        let reported = ResolverView {
            reports: s.reports.push(
                Diagnostic::Parse(
                    ParseError {
                        token: expr.token,
                        message: "Can't read local variable in its own initializer.",
                    },
                ),
            ),
            failed: true,
            ..s
        };
        assert(sound(reported));
        resolve_local_is_sound(reported, expr.id, expr.token);
    } else {
        resolve_local_is_sound(s, expr.id, expr.token);
    }
}

proof fn lemma_expr_sound(s: ResolverView, expr: Expr)
    requires
        sound(s),
    ensures
        sound(resolve_expr(s, expr)),
    decreases 1int, expr, 0int,
{
    match expr {
        Expr::Binary(e) => {
            lemma_expr_sound(s, *e.left);
            lemma_expr_sound(resolve_expr(s, *e.left), *e.right);
        },
        Expr::Grouping(e) => {
            lemma_expr_sound(s, *e.expr);
        },
        Expr::Literal(_) => {},
        Expr::Unary(e) => {
            lemma_expr_sound(s, *e.right);
        },
        Expr::Var(e) => {
            lemma_var_sound(s, e);
        },
        Expr::Assign(e) => {
            lemma_expr_sound(s, *e.value);
            resolve_local_is_sound(resolve_expr(s, *e.value), e.id, e.token);
        },
        Expr::Logical(e) => {
            lemma_expr_sound(s, *e.left);
            lemma_expr_sound(resolve_expr(s, *e.left), *e.right);
        },
        Expr::Call(e) => {
            lemma_expr_sound(s, *e.callee);
            lemma_exprs_sound(resolve_expr(s, *e.callee), e.args);
        },
        Expr::Get(e) => {
            lemma_expr_sound(s, *e.object);
        },
        Expr::SetField(e) => {
            lemma_expr_sound(s, *e.value);
            lemma_expr_sound(resolve_expr(s, *e.value), *e.object);
        },
        Expr::This(e) => {
            if s.class_type != ClassType::Toplevel {
                resolve_local_is_sound(s, e.id, e.keyword);
            }
        },
        Expr::Super(e) => {
            if s.class_type == ClassType::SubClass {
                resolve_local_is_sound(s, e.id, e.keyword);
            }
        },
    }
}

proof fn lemma_exprs_sound(s: ResolverView, exprs: List<Expr>)
    requires
        sound(s),
    ensures
        sound(resolve_exprs(s, exprs)),
    decreases 1int, exprs, 0int,
{
    match exprs {
        List::Nil => {},
        List::Cons(first, rest) => {
            lemma_expr_sound(s, *first);
            lemma_exprs_sound(resolve_expr(s, *first), *rest);
        },
    }
}

proof fn lemma_stmt_sound(s: ResolverView, stmt: Stmt)
    requires
        sound(s),
    ensures
        sound(resolve_stmt(s, stmt)),
    decreases 3int, stmt, 0int,
{
    match stmt {
        Stmt::StmtExpr(st) => {
            lemma_expr_sound(s, st.expr);
        },
        Stmt::Print(st) => {
            lemma_expr_sound(s, st.expr);
        },
        Stmt::Let(st) => {
            lemma_let_sound(s, st);
        },
        Stmt::Block(st) => {
            lemma_stmts_sound(s.begin_scope(), st.stmts);
        },
        Stmt::If(st) => {
            lemma_if_sound(s, st);
        },
        Stmt::While(st) => {
            lemma_expr_sound(s, st.condition);
            lemma_stmt_sound(resolve_expr(s, st.condition), *st.body);
        },
        Stmt::Func(st) => {
            lemma_func_sound(s.declare(name_of(st)).define(name_of(st)), st, FuncType::Function);
        },
        Stmt::Return(st) => {
            lemma_return_sound(s, st);
        },
        Stmt::Class(st) => {
            lemma_class_sound(s, st);
        },
    }
}

proof fn lemma_let_sound(s: ResolverView, stmt: Let)
    requires
        sound(s),
    ensures
        sound(visit_let_stmt(s, stmt)),
{
    match stmt.initializer {
        Some(init) => {
            assert(sound(s.declare(stmt.token)));
            lemma_expr_sound(s.declare(stmt.token), init);
        },
        None => {},
    }
}

proof fn lemma_return_sound(s: ResolverView, stmt: Return)
    requires
        sound(s),
    ensures
        sound(visit_return_stmt(s, stmt)),
{
    let s1 = if s.func_type == FuncType::Toplevel {
        s.report(stmt.keyword, "Can't return from top-level code.")
    } else {
        s
    };
    assert(sound(s1));
    match stmt.value {
        Some(value) => {
            let s2 = if s1.func_type == FuncType::Initializer {
                s1.report(stmt.keyword, "Can't return a value from an initializer.")
            } else {
                s1
            };
            assert(sound(s2));
            lemma_expr_sound(s2, value);
        },
        None => {},
    }
}

proof fn lemma_if_sound(s: ResolverView, stmt: If)
    requires
        sound(s),
    ensures
        sound(visit_if_stmt(s, stmt)),
    decreases 3int, stmt, 0int,
{
    lemma_expr_sound(s, stmt.condition);
    lemma_stmt_sound(resolve_expr(s, stmt.condition), *stmt.body);
    match stmt.else_body {
        Some(other) => {
            lemma_stmt_sound(resolve_stmt(resolve_expr(s, stmt.condition), *stmt.body), *other);
        },
        None => {},
    }
}

proof fn lemma_superclass_sound(s: ResolverView, token: Rc<Token>, superclass: Var)
    requires
        sound(s),
    ensures
        sound(resolve_superclass(s, token, superclass)),
{
    let typed = s.with_class_type(ClassType::SubClass);
    assert(sound(typed));
    let checked = if token.lexeme@ == superclass.token.lexeme@ {
        typed.report(superclass.token, "A class can't inherit from itself.")
    } else {
        typed
    };
    assert(sound(checked));
    lemma_var_sound(checked, superclass);
    assert(same_findings(
        visit_var_expr(checked, superclass).begin_scope().put(bytes_of("super"), true),
        visit_var_expr(checked, superclass),
    ));
}

proof fn lemma_class_sound(s: ResolverView, stmt: Class)
    requires
        sound(s),
    ensures
        sound(visit_class_stmt(s, stmt)),
    decreases 3int, stmt, 0int,
{
    let named = s.with_class_type(ClassType::Class).declare(stmt.token).define(stmt.token);
    assert(same_findings(named, s));
    assert(sound(named));
    let entered = match stmt.superclass {
        Some(superclass) => resolve_superclass(named, stmt.token, superclass),
        None => named,
    };
    match stmt.superclass {
        Some(superclass) => {
            lemma_superclass_sound(named, stmt.token, superclass);
        },
        None => {},
    }
    let opened = entered.begin_scope().put(bytes_of("this"), true);
    assert(same_findings(opened, entered));
    assert(sound(opened));
    lemma_methods_sound(opened, stmt.methods);
    let inner = resolve_methods(opened, stmt.methods).end_scope();
    assert(same_findings(inner, resolve_methods(opened, stmt.methods)));
    assert(same_findings(inner.end_scope(), inner));
}

proof fn lemma_stmts_sound(s: ResolverView, stmts: List<Stmt>)
    requires
        sound(s),
    ensures
        sound(resolve_stmts(s, stmts)),
    decreases 3int, stmts, 0int,
{
    match stmts {
        List::Nil => {},
        List::Cons(first, rest) => {
            lemma_stmt_sound(s, *first);
            lemma_stmts_sound(resolve_stmt(s, *first), *rest);
        },
    }
}

proof fn lemma_func_sound(s: ResolverView, func: Rc<Func>, func_type: FuncType)
    requires
        sound(s),
    ensures
        sound(resolve_func(s, func, func_type)),
    decreases 3int, func, 0int,
{
    let entered = s.with_func_type(func_type).begin_scope();
    lemma_params_sound(entered, params_of(func));
    lemma_stmts_sound(resolve_params(entered, params_of(func)), body_of(func));
}

proof fn lemma_methods_sound(s: ResolverView, methods: List<Rc<Func>>)
    requires
        sound(s),
    ensures
        sound(resolve_methods(s, methods)),
    decreases 3int, methods, 0int,
{
    match methods {
        List::Nil => {},
        List::Cons(first, rest) => {
            lemma_func_sound(s, *first, method_type(*first));
            lemma_methods_sound(resolve_func(s, *first, method_type(*first)), *rest);
        },
    }
}

proof fn lemma_from_sound(s: ResolverView, stmts: Seq<Stmt>, i: int)
    requires
        sound(s),
    ensures
        sound(resolve_from(s, stmts, i)),
    decreases stmts.len() - i,
{
    if 0 <= i < stmts.len() {
        lemma_stmt_sound(s, stmts[i]);
        lemma_from_sound(resolve_stmt(s, stmts[i]), stmts, i + 1);
    }
}

/// Whatever the program, every distance that its resolution records for an
/// expression leads, from the innermost of the scopes that are open where
/// the expression stands, to the nearest scope that holds the name: the
/// scope that many scopes out holds it, and none nearer does.
pub proof fn resolution_is_sound(s: ResolverView, stmts: Seq<Stmt>)
    requires
        sound(s),
    ensures
        sound(resolve(s, stmts)),
{
    lemma_from_sound(s.begin_scope(), stmts, 0);
}

/// The views of a list of scopes, in order.
pub open spec fn scope_views(scopes: Seq<Table<bool>>) -> Seq<Map<Seq<u8>, bool>> {
    Seq::new(scopes.len(), |i: int| scopes[i]@)
}

/// The resolver's own state: the open scopes, innermost last, and the kind
/// of function and of class that it is in.
pub struct Resolver {
    pub scopes: Vec<Table<bool>>,
    pub func_type: FuncType,
    pub class_type: ClassType,
    pub sites: Ghost<Map<u64, Site>>,
}

impl Resolver {
    /// The state of a resolution that records its distances in
    /// `interpreter` and its reports in `status`.
    pub open spec fn state(&self, interpreter: &Interpreter, status: &ErrorStatus) -> ResolverView {
        ResolverView {
            scopes: scope_views(self.scopes@),
            func_type: self.func_type,
            class_type: self.class_type,
            locals: interpreter@.locals,
            sites: self.sites@,
            reports: status.reports@,
            failed: status.had_compile_error,
        }
    }

    /// Of the interpreter only the distances changed, and of the status not
    /// the mark of an error at run time.
    pub open spec fn kept(
        before: &Interpreter,
        after: &Interpreter,
        status_before: &ErrorStatus,
        status_after: &ErrorStatus,
    ) -> bool {
        &&& after@ == (InterpreterView { locals: after@.locals, ..before@ })
        &&& after.fuel == before.fuel
        &&& status_after.had_runtime_error == status_before.had_runtime_error
    }

    /// A resolver outside every scope, function and class.
    pub fn new() -> (r: Self)
        ensures
            r.scopes@.len() == 0,
            r.func_type == FuncType::Toplevel,
            r.class_type == ClassType::Toplevel,
            r.sites@ == Map::<u64, Site>::empty(),
    {
        Resolver {
            scopes: Vec::new(),
            func_type: FuncType::Toplevel,
            class_type: ClassType::Toplevel,
            sites: Ghost(Map::empty()),
        }
    }

    /// Resolves a program: records the distances in `interpreter` and the
    /// errors in `status`.
    pub fn resolve(&mut self, stmts: &Vec<Stmt>, interpreter: &mut Interpreter, status: &mut ErrorStatus)
        ensures
            final(self).state(final(interpreter), final(status)) == resolve(
                old(self).state(old(interpreter), old(status)),
                stmts@,
            ),
            Self::kept(old(interpreter), final(interpreter), old(status), final(status)),
    {
        self.begin_scope();
        let mut i: usize = 0;
        while i < stmts.len()
            invariant
                i <= stmts.len(),
                Self::kept(old(interpreter), interpreter, old(status), status),
                resolve_from(self.state(interpreter, status), stmts@, i as int) == resolve_from(
                    old(self).state(old(interpreter), old(status)).begin_scope(),
                    stmts@,
                    0,
                ),
            decreases stmts.len() - i,
        {
            self.resolve_stmt(&stmts[i], interpreter, status);
            i += 1;
        }
        self.end_scope();
    }

    fn resolve_stmts(&mut self, stmts: &List<Stmt>, interpreter: &mut Interpreter, status: &mut ErrorStatus)
        ensures
            final(self).state(final(interpreter), final(status)) == resolve_stmts(
                old(self).state(old(interpreter), old(status)),
                *stmts,
            ),
            Self::kept(old(interpreter), final(interpreter), old(status), final(status)),
        decreases 3int, stmts, 0int,
    {
        let mut rest = stmts;
        loop
            invariant
                rest == stmts || decreases_to!(stmts => rest),
                Self::kept(old(interpreter), interpreter, old(status), status),
                resolve_stmts(self.state(interpreter, status), *rest) == resolve_stmts(
                    old(self).state(old(interpreter), old(status)),
                    *stmts,
                ),
            decreases rest,
        {
            match rest {
                List::Nil => {
                    return ;
                },
                List::Cons(first, tail) => {
                    self.resolve_stmt(first, interpreter, status);
                    rest = tail;
                },
            }
        }
    }

    fn resolve_stmt(&mut self, stmt: &Stmt, interpreter: &mut Interpreter, status: &mut ErrorStatus)
        ensures
            final(self).state(final(interpreter), final(status)) == resolve_stmt(
                old(self).state(old(interpreter), old(status)),
                *stmt,
            ),
            Self::kept(old(interpreter), final(interpreter), old(status), final(status)),
        decreases 3int, stmt, 0int,
    {
        match stmt {
            Stmt::StmtExpr(st) => self.visit_expr_stmt(st, interpreter, status),
            Stmt::Print(st) => self.visit_print_stmt(st, interpreter, status),
            Stmt::Let(st) => self.visit_let_stmt(st, interpreter, status),
            Stmt::Block(st) => self.visit_block_stmt(st, interpreter, status),
            Stmt::If(st) => self.visit_if_stmt(st, interpreter, status),
            Stmt::While(st) => self.visit_while_stmt(st, interpreter, status),
            Stmt::Func(st) => self.visit_func_stmt(st, interpreter, status),
            Stmt::Return(st) => self.visit_return_stmt(st, interpreter, status),
            Stmt::Class(st) => self.visit_class_stmt(st, interpreter, status),
        }
    }

    fn resolve_expr(&mut self, expr: &Expr, interpreter: &mut Interpreter, status: &mut ErrorStatus)
        ensures
            final(self).state(final(interpreter), final(status)) == resolve_expr(
                old(self).state(old(interpreter), old(status)),
                *expr,
            ),
            Self::kept(old(interpreter), final(interpreter), old(status), final(status)),
        decreases 1int, expr, 0int,
    {
        match expr {
            Expr::Binary(e) => self.visit_binary_expr(e, interpreter, status),
            Expr::Grouping(e) => self.visit_grouping_expr(e, interpreter, status),
            Expr::Literal(_) => {},
            Expr::Unary(e) => self.visit_unary_expr(e, interpreter, status),
            Expr::Var(e) => self.visit_var_expr(e, interpreter, status),
            Expr::Assign(e) => self.visit_assign_expr(e, interpreter, status),
            Expr::Logical(e) => self.visit_logical_expr(e, interpreter, status),
            Expr::Call(e) => self.visit_call_expr(e, interpreter, status),
            Expr::Get(e) => self.visit_get_expr(e, interpreter, status),
            Expr::SetField(e) => self.visit_set_expr(e, interpreter, status),
            Expr::This(e) => self.visit_this_expr(e, interpreter, status),
            Expr::Super(e) => self.visit_super_expr(e, interpreter, status),
        }
    }

    /// Records how many scopes out `token`'s name is found, if it is found.
    fn resolve_local(&mut self, id: u64, token: &Rc<Token>, interpreter: &mut Interpreter, status: &ErrorStatus)
        ensures
            final(self).state(final(interpreter), status) == old(self).state(
                old(interpreter),
                status,
            ).resolve_local(id, *token),
            Self::kept(old(interpreter), final(interpreter), status, status),
    {
        let n = self.scopes.len();
        let mut depth: usize = 0;
        while depth < n
            invariant
                depth <= n,
                n == self.scopes.len(),
                *self == *old(self),
                *interpreter == *old(interpreter),
                depth_from(scope_views(self.scopes@), token.lexeme@, depth as nat) == depth_from(
                    scope_views(self.scopes@),
                    token.lexeme@,
                    0,
                ),
            decreases n - depth,
        {
            if self.scopes[n - 1 - depth].contains_key(token.lexeme.as_slice()) {
                interpreter.resolve(id, depth);
                proof {
                    self.sites = Ghost(
                        self.sites@.insert(
                            id,
                            Site { name: token.lexeme@, scopes: scope_views(self.scopes@) },
                        ),
                    );
                }
                return ;
            }
            depth += 1;
        }
    }

    fn resolve_func(
        &mut self,
        func: &Rc<Func>,
        func_type: FuncType,
        interpreter: &mut Interpreter,
        status: &mut ErrorStatus,
    )
        ensures
            final(self).state(final(interpreter), final(status)) == resolve_func(
                old(self).state(old(interpreter), old(status)),
                *func,
                func_type,
            ),
            Self::kept(old(interpreter), final(interpreter), old(status), final(status)),
        decreases 3int, func, 0int,
    {
        let enclosing_func = self.func_type;
        self.func_type = func_type;
        self.begin_scope();
        self.resolve_params(&func.params, interpreter, status);
        self.resolve_stmts(&func.body, interpreter, status);
        self.end_scope();
        self.func_type = enclosing_func;
    }

    /// Declares and defines each parameter.
    fn resolve_params(&mut self, params: &List<Rc<Token>>, interpreter: &Interpreter, status: &mut ErrorStatus)
        ensures
            final(self).state(interpreter, final(status)) == resolve_params(
                old(self).state(interpreter, old(status)),
                *params,
            ),
            final(status).had_runtime_error == old(status).had_runtime_error,
    {
        let mut rest = params;
        loop
            invariant
                status.had_runtime_error == old(status).had_runtime_error,
                resolve_params(self.state(interpreter, status), *rest) == resolve_params(
                    old(self).state(interpreter, old(status)),
                    *params,
                ),
            decreases rest,
        {
            match rest {
                List::Nil => {
                    return ;
                },
                List::Cons(param, tail) => {
                    self.declare(param, interpreter, status);
                    self.define(param, interpreter, status);
                    rest = tail;
                },
            }
        }
    }

    fn begin_scope(&mut self)
        ensures
            final(self).func_type == old(self).func_type,
            final(self).class_type == old(self).class_type,
            final(self).sites == old(self).sites,
            scope_views(final(self).scopes@) == scope_views(old(self).scopes@).push(Map::empty()),
    {
        self.scopes.push(Table::new());
        proof {
            assert(scope_views(self.scopes@) =~= scope_views(old(self).scopes@).push(Map::empty()));
        }
    }

    fn end_scope(&mut self)
        ensures
            final(self).func_type == old(self).func_type,
            final(self).class_type == old(self).class_type,
            final(self).sites == old(self).sites,
            scope_views(final(self).scopes@) == if old(self).scopes@.len() > 0 {
                scope_views(old(self).scopes@).drop_last()
            } else {
                scope_views(old(self).scopes@)
            },
    {
        self.scopes.pop();
        proof {
            if old(self).scopes@.len() > 0 {
                assert(scope_views(self.scopes@) =~= scope_views(old(self).scopes@).drop_last());
            }
        }
    }

    /// Marks `name` in the innermost scope, if one is open.
    fn put(&mut self, name: Rc<Vec<u8>>, defined: bool, interpreter: &Interpreter, status: &ErrorStatus)
        ensures
            final(self).state(interpreter, status) == old(self).state(interpreter, status).put(
                name@,
                defined,
            ),
    {
        let n = self.scopes.len();
        if n > 0 {
            self.scopes[n - 1].insert(name, defined);
            proof {
                assert(scope_views(self.scopes@) =~= old(self).state(interpreter, status).put(
                    name@,
                    defined,
                ).scopes);
            }
        }
    }

    /// Records an error at `token`.
    fn report(&self, token: &Rc<Token>, message: &'static str, interpreter: &Interpreter, status: &mut ErrorStatus)
        ensures
            self.state(interpreter, final(status)) == self.state(interpreter, old(status)).report(
                *token,
                message,
            ),
            final(status).had_runtime_error == old(status).had_runtime_error,
    {
        status.report_compile_error(Diagnostic::Runtime(RuntimeError::new(share(token), message)));
    }

    fn declare(&mut self, token: &Rc<Token>, interpreter: &Interpreter, status: &mut ErrorStatus)
        ensures
            final(self).state(interpreter, final(status)) == old(self).state(
                interpreter,
                old(status),
            ).declare(*token),
            final(status).had_runtime_error == old(status).had_runtime_error,
    {
        let n = self.scopes.len();
        if n == 0 {
            return ;
        }
        if self.scopes[n - 1].contains_key(token.lexeme.as_slice()) {
            self.report(
                token,
                "Already variable with this name declared in this scope.",
                interpreter,
                status,
            );
        }
        self.put(share(&token.lexeme), false, interpreter, status);
    }

    fn define(&mut self, token: &Rc<Token>, interpreter: &Interpreter, status: &ErrorStatus)
        ensures
            final(self).state(interpreter, status) == old(self).state(interpreter, status).define(*token),
    {
        self.put(share(&token.lexeme), true, interpreter, status);
    }

    fn is_accessed_in_initializer(&self, var_name: &[u8], interpreter: &Interpreter, status: &ErrorStatus) -> (r: bool)
        ensures
            r == self.state(interpreter, status).is_accessed_in_initializer(var_name@),
    {
        let n = self.scopes.len();
        if n == 0 {
            return false;
        }
        match self.scopes[n - 1].get(var_name) {
            Some(resolved) => !*resolved,
            None => false,
        }
    }

    fn visit_block_stmt(&mut self, stmt: &Block, interpreter: &mut Interpreter, status: &mut ErrorStatus)
        ensures
            final(self).state(final(interpreter), final(status)) == visit_block_stmt(
                old(self).state(old(interpreter), old(status)),
                *stmt,
            ),
            Self::kept(old(interpreter), final(interpreter), old(status), final(status)),
        decreases 3int, stmt, 0int,
    {
        self.begin_scope();
        self.resolve_stmts(&stmt.stmts, interpreter, status);
        self.end_scope();
    }

    fn visit_let_stmt(&mut self, stmt: &Let, interpreter: &mut Interpreter, status: &mut ErrorStatus)
        ensures
            final(self).state(final(interpreter), final(status)) == visit_let_stmt(
                old(self).state(old(interpreter), old(status)),
                *stmt,
            ),
            Self::kept(old(interpreter), final(interpreter), old(status), final(status)),
        decreases 2int, stmt, 0int,
    {
        self.declare(&stmt.token, interpreter, status);
        if let Some(init) = &stmt.initializer {
            self.resolve_expr(init, interpreter, status);
        }
        self.define(&stmt.token, interpreter, status);
    }

    fn visit_func_stmt(&mut self, stmt: &Rc<Func>, interpreter: &mut Interpreter, status: &mut ErrorStatus)
        ensures
            final(self).state(final(interpreter), final(status)) == visit_func_stmt(
                old(self).state(old(interpreter), old(status)),
                *stmt,
            ),
            Self::kept(old(interpreter), final(interpreter), old(status), final(status)),
        decreases 3int, stmt, 1int,
    {
        self.declare(&stmt.token, interpreter, status);
        self.define(&stmt.token, interpreter, status);
        self.resolve_func(stmt, FuncType::Function, interpreter, status);
    }

    fn visit_expr_stmt(&mut self, stmt: &StmtExpr, interpreter: &mut Interpreter, status: &mut ErrorStatus)
        ensures
            final(self).state(final(interpreter), final(status)) == visit_expr_stmt(
                old(self).state(old(interpreter), old(status)),
                *stmt,
            ),
            Self::kept(old(interpreter), final(interpreter), old(status), final(status)),
        decreases 2int, stmt, 0int,
    {
        self.resolve_expr(&stmt.expr, interpreter, status);
    }

    fn visit_if_stmt(&mut self, stmt: &If, interpreter: &mut Interpreter, status: &mut ErrorStatus)
        ensures
            final(self).state(final(interpreter), final(status)) == visit_if_stmt(
                old(self).state(old(interpreter), old(status)),
                *stmt,
            ),
            Self::kept(old(interpreter), final(interpreter), old(status), final(status)),
        decreases 3int, stmt, 0int,
    {
        self.resolve_expr(&stmt.condition, interpreter, status);
        self.resolve_stmt(&stmt.body, interpreter, status);
        if let Some(else_body) = &stmt.else_body {
            self.resolve_stmt(else_body, interpreter, status);
        }
    }

    fn visit_print_stmt(&mut self, stmt: &Print, interpreter: &mut Interpreter, status: &mut ErrorStatus)
        ensures
            final(self).state(final(interpreter), final(status)) == visit_print_stmt(
                old(self).state(old(interpreter), old(status)),
                *stmt,
            ),
            Self::kept(old(interpreter), final(interpreter), old(status), final(status)),
        decreases 2int, stmt, 0int,
    {
        self.resolve_expr(&stmt.expr, interpreter, status);
    }

    fn visit_return_stmt(&mut self, stmt: &Return, interpreter: &mut Interpreter, status: &mut ErrorStatus)
        ensures
            final(self).state(final(interpreter), final(status)) == visit_return_stmt(
                old(self).state(old(interpreter), old(status)),
                *stmt,
            ),
            Self::kept(old(interpreter), final(interpreter), old(status), final(status)),
        decreases 2int, stmt, 0int,
    {
        if let FuncType::Toplevel = self.func_type {
            self.report(&stmt.keyword, "Can't return from top-level code.", interpreter, status);
        }
        if let Some(value) = &stmt.value {
            if let FuncType::Initializer = self.func_type {
                self.report(&stmt.keyword, "Can't return a value from an initializer.", interpreter, status);
            }
            self.resolve_expr(value, interpreter, status);
        }
    }

    fn visit_while_stmt(&mut self, stmt: &While, interpreter: &mut Interpreter, status: &mut ErrorStatus)
        ensures
            final(self).state(final(interpreter), final(status)) == visit_while_stmt(
                old(self).state(old(interpreter), old(status)),
                *stmt,
            ),
            Self::kept(old(interpreter), final(interpreter), old(status), final(status)),
        decreases 3int, stmt, 0int,
    {
        self.resolve_expr(&stmt.condition, interpreter, status);
        self.resolve_stmt(&stmt.body, interpreter, status);
    }

    fn resolve_methods(&mut self, methods: &List<Rc<Func>>, interpreter: &mut Interpreter, status: &mut ErrorStatus)
        ensures
            final(self).state(final(interpreter), final(status)) == resolve_methods(
                old(self).state(old(interpreter), old(status)),
                *methods,
            ),
            Self::kept(old(interpreter), final(interpreter), old(status), final(status)),
        decreases 3int, methods, 0int,
    {
        let mut rest = methods;
        loop
            invariant
                rest == methods || decreases_to!(methods => rest),
                Self::kept(old(interpreter), interpreter, old(status), status),
                resolve_methods(self.state(interpreter, status), *rest) == resolve_methods(
                    old(self).state(old(interpreter), old(status)),
                    *methods,
                ),
            decreases rest,
        {
            match rest {
                List::Nil => {
                    return ;
                },
                List::Cons(method, tail) => {
                    let func_type = if is_text(method.token.lexeme.as_slice(), "init") {
                        FuncType::Initializer
                    } else {
                        FuncType::Method
                    };
                    self.resolve_func(method, func_type, interpreter, status);
                    rest = tail;
                },
            }
        }
    }

    fn visit_class_stmt(&mut self, stmt: &Class, interpreter: &mut Interpreter, status: &mut ErrorStatus)
        ensures
            final(self).state(final(interpreter), final(status)) == visit_class_stmt(
                old(self).state(old(interpreter), old(status)),
                *stmt,
            ),
            Self::kept(old(interpreter), final(interpreter), old(status), final(status)),
        decreases 3int, stmt, 0int,
    {
        let enclosing_class = self.class_type;
        self.class_type = ClassType::Class;
        self.declare(&stmt.token, interpreter, status);
        self.define(&stmt.token, interpreter, status);
        if let Some(superclass) = &stmt.superclass {
            self.class_type = ClassType::SubClass;
            if same_bytes(stmt.token.lexeme.as_slice(), superclass.token.lexeme.as_slice()) {
                self.report(&superclass.token, "A class can't inherit from itself.", interpreter, status);
            }
            self.visit_var_expr(superclass, interpreter, status);
            self.begin_scope();
            self.put(Rc::new(to_bytes("super")), true, interpreter, status);
        }
        self.begin_scope();
        self.put(Rc::new(to_bytes("this")), true, interpreter, status);
        self.resolve_methods(&stmt.methods, interpreter, status);
        self.end_scope();
        if stmt.superclass.is_some() {
            self.end_scope();
        }
        self.class_type = enclosing_class;
    }

    fn visit_var_expr(&mut self, expr: &Var, interpreter: &mut Interpreter, status: &mut ErrorStatus)
        ensures
            final(self).state(final(interpreter), final(status)) == visit_var_expr(
                old(self).state(old(interpreter), old(status)),
                *expr,
            ),
            Self::kept(old(interpreter), final(interpreter), old(status), final(status)),
    {
        if self.is_accessed_in_initializer(expr.token.lexeme.as_slice(), interpreter, status) {
            let error = ParseError::new(
                share(&expr.token),
                "Can't read local variable in its own initializer.",
            );
            status.report_compile_error(Diagnostic::Parse(error));
        }
        self.resolve_local(expr.id, &expr.token, interpreter, status);
    }

    fn visit_assign_expr(&mut self, expr: &Assign, interpreter: &mut Interpreter, status: &mut ErrorStatus)
        ensures
            final(self).state(final(interpreter), final(status)) == visit_assign_expr(
                old(self).state(old(interpreter), old(status)),
                *expr,
            ),
            Self::kept(old(interpreter), final(interpreter), old(status), final(status)),
        decreases 1int, expr, 0int,
    {
        self.resolve_expr(&expr.value, interpreter, status);
        self.resolve_local(expr.id, &expr.token, interpreter, status);
    }

    fn visit_binary_expr(&mut self, expr: &Binary, interpreter: &mut Interpreter, status: &mut ErrorStatus)
        ensures
            final(self).state(final(interpreter), final(status)) == visit_binary_expr(
                old(self).state(old(interpreter), old(status)),
                *expr,
            ),
            Self::kept(old(interpreter), final(interpreter), old(status), final(status)),
        decreases 1int, expr, 0int,
    {
        self.resolve_expr(&expr.left, interpreter, status);
        self.resolve_expr(&expr.right, interpreter, status);
    }

    fn visit_call_expr(&mut self, expr: &Call, interpreter: &mut Interpreter, status: &mut ErrorStatus)
        ensures
            final(self).state(final(interpreter), final(status)) == visit_call_expr(
                old(self).state(old(interpreter), old(status)),
                *expr,
            ),
            Self::kept(old(interpreter), final(interpreter), old(status), final(status)),
        decreases 1int, expr, 0int,
    {
        self.resolve_expr(&expr.callee, interpreter, status);
        self.resolve_exprs(&expr.args, interpreter, status);
    }

    fn resolve_exprs(&mut self, exprs: &List<Expr>, interpreter: &mut Interpreter, status: &mut ErrorStatus)
        ensures
            final(self).state(final(interpreter), final(status)) == resolve_exprs(
                old(self).state(old(interpreter), old(status)),
                *exprs,
            ),
            Self::kept(old(interpreter), final(interpreter), old(status), final(status)),
        decreases 1int, exprs, 0int,
    {
        let mut rest = exprs;
        loop
            invariant
                rest == exprs || decreases_to!(exprs => rest),
                Self::kept(old(interpreter), interpreter, old(status), status),
                resolve_exprs(self.state(interpreter, status), *rest) == resolve_exprs(
                    old(self).state(old(interpreter), old(status)),
                    *exprs,
                ),
            decreases rest,
        {
            match rest {
                List::Nil => {
                    return ;
                },
                List::Cons(arg, tail) => {
                    self.resolve_expr(arg, interpreter, status);
                    rest = tail;
                },
            }
        }
    }

    fn visit_grouping_expr(&mut self, expr: &Grouping, interpreter: &mut Interpreter, status: &mut ErrorStatus)
        ensures
            final(self).state(final(interpreter), final(status)) == visit_grouping_expr(
                old(self).state(old(interpreter), old(status)),
                *expr,
            ),
            Self::kept(old(interpreter), final(interpreter), old(status), final(status)),
        decreases 1int, expr, 0int,
    {
        self.resolve_expr(&expr.expr, interpreter, status);
    }

    fn visit_logical_expr(&mut self, expr: &Logical, interpreter: &mut Interpreter, status: &mut ErrorStatus)
        ensures
            final(self).state(final(interpreter), final(status)) == visit_logical_expr(
                old(self).state(old(interpreter), old(status)),
                *expr,
            ),
            Self::kept(old(interpreter), final(interpreter), old(status), final(status)),
        decreases 1int, expr, 0int,
    {
        self.resolve_expr(&expr.left, interpreter, status);
        self.resolve_expr(&expr.right, interpreter, status);
    }

    fn visit_unary_expr(&mut self, expr: &Unary, interpreter: &mut Interpreter, status: &mut ErrorStatus)
        ensures
            final(self).state(final(interpreter), final(status)) == visit_unary_expr(
                old(self).state(old(interpreter), old(status)),
                *expr,
            ),
            Self::kept(old(interpreter), final(interpreter), old(status), final(status)),
        decreases 1int, expr, 0int,
    {
        self.resolve_expr(&expr.right, interpreter, status);
    }

    fn visit_get_expr(&mut self, expr: &Get, interpreter: &mut Interpreter, status: &mut ErrorStatus)
        ensures
            final(self).state(final(interpreter), final(status)) == visit_get_expr(
                old(self).state(old(interpreter), old(status)),
                *expr,
            ),
            Self::kept(old(interpreter), final(interpreter), old(status), final(status)),
        decreases 1int, expr, 0int,
    {
        self.resolve_expr(&expr.object, interpreter, status);
    }

    fn visit_set_expr(&mut self, expr: &SetField, interpreter: &mut Interpreter, status: &mut ErrorStatus)
        ensures
            final(self).state(final(interpreter), final(status)) == visit_set_expr(
                old(self).state(old(interpreter), old(status)),
                *expr,
            ),
            Self::kept(old(interpreter), final(interpreter), old(status), final(status)),
        decreases 1int, expr, 0int,
    {
        self.resolve_expr(&expr.value, interpreter, status);
        self.resolve_expr(&expr.object, interpreter, status);
    }

    fn visit_this_expr(&mut self, expr: &This, interpreter: &mut Interpreter, status: &mut ErrorStatus)
        ensures
            final(self).state(final(interpreter), final(status)) == visit_this_expr(
                old(self).state(old(interpreter), old(status)),
                *expr,
            ),
            Self::kept(old(interpreter), final(interpreter), old(status), final(status)),
    {
        match self.class_type {
            ClassType::Toplevel => {
                self.report(&expr.keyword, "Can't use 'this' outside of a class.", interpreter, status);
            },
            _ => self.resolve_local(expr.id, &expr.keyword, interpreter, status),
        }
    }

    fn visit_super_expr(&mut self, expr: &Super, interpreter: &mut Interpreter, status: &mut ErrorStatus)
        ensures
            final(self).state(final(interpreter), final(status)) == visit_super_expr(
                old(self).state(old(interpreter), old(status)),
                *expr,
            ),
            Self::kept(old(interpreter), final(interpreter), old(status), final(status)),
    {
        match self.class_type {
            ClassType::Toplevel => {
                self.report(&expr.keyword, "Can't use 'super' outside of a class.", interpreter, status);
            },
            ClassType::Class => {
                self.report(
                    &expr.keyword,
                    "Can't use 'super' in a class with no superclass.",
                    interpreter,
                    status,
                );
            },
            ClassType::SubClass => self.resolve_local(expr.id, &expr.keyword, interpreter, status),
        }
    }
}

} // verus!
