//! Environments: scopes linked to the scope that encloses them.
//!
//! The scopes of a run stand in one list, and a scope is known by its place
//! in it. A closure and the block it was made in thus hold the same scope,
//! and each sees what the other assigns.

use crate::enviroment::Enviroment;
use crate::error::Message;
use crate::error::RuntimeError;
use crate::text::share;
use crate::token::Token;
use crate::token::Value;
use crate::token::ValueView;
use std::rc::Rc;
use vstd::prelude::*;

verus! {

/// A scope and the place of the scope that encloses it.
#[derive(Debug)]
pub struct Environment {
    pub values: Enviroment,
    pub enclosing: Option<usize>,
}

/// The mathematical form of an `Environment`.
pub struct EnvironmentView {
    pub values: Map<Seq<u8>, ValueView>,
    pub enclosing: Option<usize>,
}

impl View for Environment {
    type V = EnvironmentView;

    open spec fn view(&self) -> EnvironmentView {
        EnvironmentView { values: self.values@, enclosing: self.enclosing }
    }
}

/// The views of a list of scopes, in order.
pub open spec fn environment_views(scopes: Seq<Environment>) -> Seq<EnvironmentView> {
    Seq::new(scopes.len(), |i: int| scopes[i]@)
}

/// The scope `distance` links out from the scope at `at`.
pub open spec fn ancestor(scopes: Seq<EnvironmentView>, at: usize, distance: usize) -> Option<usize>
    decreases distance,
{
    if at >= scopes.len() {
        None
    } else if distance == 0 {
        Some(at)
    } else {
        match scopes[at as int].enclosing {
            Some(outer) => ancestor(scopes, outer, (distance - 1) as usize),
            None => None,
        }
    }
}

/// The nearest scope, from the one at `at` outwards, that defines `name`.
/// A scope always stands behind the scope that encloses it; a link that
/// points elsewhere is not followed.
pub open spec fn defining_scope(scopes: Seq<EnvironmentView>, at: usize, name: Seq<u8>) -> Option<usize>
    decreases at,
{
    if at >= scopes.len() {
        None
    } else if scopes[at as int].values.contains_key(name) {
        Some(at)
    } else {
        match scopes[at as int].enclosing {
            Some(outer) => if outer < at {
                defining_scope(scopes, outer, name)
            } else {
                None
            },
            None => None,
        }
    }
}

/// The scopes with `name` bound to `value` in the scope at `at`.
pub open spec fn define(scopes: Seq<EnvironmentView>, at: usize, name: Seq<u8>, value: ValueView) -> Seq<
    EnvironmentView,
> {
    if at < scopes.len() {
        scopes.update(
            at as int,
            EnvironmentView {
                values: scopes[at as int].values.insert(name, value),
                enclosing: scopes[at as int].enclosing,
            },
        )
    } else {
        scopes
    }
}

/// Why a variable was not found at a given distance.
pub enum Missing {
    /// There is no scope that far out.
    Scope,
    /// The scope there does not define the name.
    Name,
}

/// The value of `name` in the scope `distance` links out from the one at `at`.
pub open spec fn get_named_at(scopes: Seq<EnvironmentView>, at: usize, distance: usize, name: Seq<u8>) -> Result<
    ValueView,
    Missing,
> {
    match ancestor(scopes, at, distance) {
        Some(scope) => if scopes[scope as int].values.contains_key(name) {
            Ok(scopes[scope as int].values[name])
        } else {
            Err(Missing::Name)
        },
        None => Err(Missing::Scope),
    }
}

/// The error for a variable that was not found at a given distance.
pub open spec fn missing_error(token: Rc<Token>, missing: Missing) -> RuntimeError {
    match missing {
        Missing::Scope => RuntimeError {
            token,
            message: Message::Named("The scope where '", "' is declared cannot be accessed"),
        },
        Missing::Name => RuntimeError {
            token,
            message: Message::Named("'", "' cannot be found in eclosing scopes."),
        },
    }
}

/// The value of the variable that `token` names, looked for from the scope
/// at `at` outwards.
pub open spec fn get(scopes: Seq<EnvironmentView>, at: usize, token: Rc<Token>) -> Result<
    ValueView,
    RuntimeError,
> {
    match defining_scope(scopes, at, token.lexeme@) {
        Some(scope) => Ok(scopes[scope as int].values[token.lexeme@]),
        None => Err(
            RuntimeError { token, message: Message::Named("'", "' cannot be found in current scope.") },
        ),
    }
}

/// The value of the variable that `token` names in the scope `distance`
/// links out from the one at `at`.
pub open spec fn get_at(scopes: Seq<EnvironmentView>, at: usize, distance: usize, token: Rc<Token>) -> Result<
    ValueView,
    RuntimeError,
> {
    match get_named_at(scopes, at, distance, token.lexeme@) {
        Ok(v) => Ok(v),
        Err(missing) => Err(missing_error(token, missing)),
    }
}

/// The scopes after an assignment to the variable that `token` names, in
/// the nearest scope that defines it; or the error that none does.
pub open spec fn assign(scopes: Seq<EnvironmentView>, at: usize, token: Rc<Token>, value: ValueView) -> Result<
    Seq<EnvironmentView>,
    RuntimeError,
> {
    match defining_scope(scopes, at, token.lexeme@) {
        Some(scope) => Ok(define(scopes, scope, token.lexeme@, value)),
        None => Err(
            RuntimeError {
                token,
                message: Message::Named("Cannot assign a value to '", "' before it is declared"),
            },
        ),
    }
}

/// The scopes after `token`'s name was bound to `value` in the scope
/// `distance` links out from the one at `at`; or the error that there is no
/// such scope.
pub open spec fn assign_at(
    scopes: Seq<EnvironmentView>,
    at: usize,
    distance: usize,
    token: Rc<Token>,
    value: ValueView,
) -> Result<Seq<EnvironmentView>, RuntimeError> {
    match ancestor(scopes, at, distance) {
        Some(scope) => Ok(define(scopes, scope, token.lexeme@, value)),
        None => Err(
            RuntimeError {
                token,
                message: Message::Named("Cannot assign value to '", "' in unreachable scope."),
            },
        ),
    }
}

/// A result with the value, if it holds one, in its mathematical form.
pub open spec fn value_result(r: Result<Value, RuntimeError>) -> Result<ValueView, RuntimeError> {
    match r {
        Ok(v) => Ok(v@),
        Err(e) => Err(e),
    }
}

impl Environment {
    /// A scope without names, inside the scope at `enclosing`.
    pub fn new(enclosing: Option<usize>) -> (r: Self)
        ensures
            r@ == (EnvironmentView { values: Map::empty(), enclosing }),
    {
        Environment { values: Enviroment::new(), enclosing }
    }

    /// Adds a scope without names, inside the scope at `enclosing`, to the
    /// scopes, and hands out its place.
    pub fn new_wrapped(scopes: &mut Vec<Environment>, enclosing: Option<usize>) -> (r: usize)
        ensures
            r == old(scopes)@.len(),
            environment_views(final(scopes)@) == environment_views(old(scopes)@).push(
                EnvironmentView { values: Map::empty(), enclosing },
            ),
    {
        let at = scopes.len();
        scopes.push(Environment::new(enclosing));
        proof {
            assert(environment_views(scopes@) =~= environment_views(old(scopes)@).push(
                EnvironmentView { values: Map::empty(), enclosing },
            ));
        }
        at
    }

    /// Binds `name` to `value` in this scope, whether or not it was bound.
    pub fn define(&mut self, name: Rc<Vec<u8>>, value: Value)
        ensures
            final(self)@ == (EnvironmentView {
                values: old(self)@.values.insert(name@, value@),
                enclosing: old(self).enclosing,
            }),
    {
        self.values.define(name, value);
    }

    /// Binds `name` to `value` in the scope at `at`, if there is one.
    pub fn define_in(scopes: &mut Vec<Environment>, at: usize, name: Rc<Vec<u8>>, value: Value)
        ensures
            environment_views(final(scopes)@) == define(environment_views(old(scopes)@), at, name@, value@),
    {
        if at < scopes.len() {
            scopes[at].define(name, value);
        }
        proof {
            assert(environment_views(scopes@) =~= define(
                environment_views(old(scopes)@),
                at,
                name@,
                value@,
            ));
        }
    }

    /// The place of the scope `distance` links out from the one at `at`.
    pub fn ancestor(scopes: &Vec<Environment>, at: usize, distance: usize) -> (r: Option<usize>)
        ensures
            r == ancestor(environment_views(scopes@), at, distance),
    {
        let mut scope = at;
        let mut left = distance;
        loop
            invariant
                ancestor(environment_views(scopes@), scope, left) == ancestor(
                    environment_views(scopes@),
                    at,
                    distance,
                ),
            decreases left,
        {
            if scope >= scopes.len() {
                return None;
            }
            if left == 0 {
                return Some(scope);
            }
            match scopes[scope].enclosing {
                Some(outer) => {
                    scope = outer;
                    left -= 1;
                },
                None => {
                    return None;
                },
            }
        }
    }

    /// The place of the nearest scope, from the one at `at` outwards, that
    /// defines `name`.
    pub fn defining_scope(scopes: &Vec<Environment>, at: usize, name: &[u8]) -> (r: Option<usize>)
        ensures
            r == defining_scope(environment_views(scopes@), at, name@),
            r matches Some(scope) ==> scope < scopes@.len() && scopes@[scope as int]@.values.contains_key(
                name@,
            ),
    {
        let mut scope = at;
        loop
            invariant
                defining_scope(environment_views(scopes@), scope, name@) == defining_scope(
                    environment_views(scopes@),
                    at,
                    name@,
                ),
            decreases scope,
        {
            if scope >= scopes.len() {
                return None;
            }
            if scopes[scope].values.values.contains_key(name) {
                return Some(scope);
            }
            match scopes[scope].enclosing {
                Some(outer) => {
                    if outer < scope {
                        scope = outer;
                    } else {
                        return None;
                    }
                },
                None => {
                    return None;
                },
            }
        }
    }

    /// The value of the variable that `token` names, looked for from the
    /// scope at `at` outwards.
    pub fn get(scopes: &Vec<Environment>, at: usize, token: &Rc<Token>) -> (r: Result<Value, RuntimeError>)
        ensures
            value_result(r) == get(environment_views(scopes@), at, *token),
    {
        match Self::defining_scope(scopes, at, token.lexeme.as_slice()) {
            Some(scope) => match scopes[scope].values.values.get(token.lexeme.as_slice()) {
                Some(value) => Ok(value.copy()),
                None => Err(RuntimeError::named(share(token), "'", "' cannot be found in current scope.")),
            },
            None => Err(RuntimeError::named(share(token), "'", "' cannot be found in current scope.")),
        }
    }

    /// The value of `name` in the scope `distance` links out from the one
    /// at `at`.
    pub fn get_named_at(scopes: &Vec<Environment>, at: usize, distance: usize, name: &[u8]) -> (r: Result<
        Value,
        Missing,
    >)
        ensures
            match r {
                Ok(v) => get_named_at(environment_views(scopes@), at, distance, name@) == Ok::<
                    ValueView,
                    Missing,
                >(v@),
                Err(m) => get_named_at(environment_views(scopes@), at, distance, name@) == Err::<
                    ValueView,
                    Missing,
                >(m),
            },
    {
        match Self::ancestor(scopes, at, distance) {
            Some(scope) => {
                proof {
                    lemma_ancestor_in_range(environment_views(scopes@), at, distance);
                }
                match scopes[scope].values.values.get(name) {
                    Some(value) => Ok(value.copy()),
                    None => Err(Missing::Name),
                }
            },
            None => Err(Missing::Scope),
        }
    }

    /// The value of the variable that `token` names in the scope `distance`
    /// links out from the one at `at`.
    pub fn get_at(scopes: &Vec<Environment>, at: usize, distance: usize, token: &Rc<Token>) -> (r: Result<
        Value,
        RuntimeError,
    >)
        ensures
            value_result(r) == get_at(environment_views(scopes@), at, distance, *token),
    {
        match Self::get_named_at(scopes, at, distance, token.lexeme.as_slice()) {
            Ok(value) => Ok(value),
            Err(Missing::Scope) => Err(
                RuntimeError::named(
                    share(token),
                    "The scope where '",
                    "' is declared cannot be accessed",
                ),
            ),
            Err(Missing::Name) => Err(
                RuntimeError::named(share(token), "'", "' cannot be found in eclosing scopes."),
            ),
        }
    }

    /// Gives the variable that `token` names a new value in the nearest
    /// scope, from the one at `at` outwards, that defines it. Where none
    /// does, nothing changes.
    pub fn assign(scopes: &mut Vec<Environment>, at: usize, token: &Rc<Token>, value: Value) -> (r: Result<
        (),
        RuntimeError,
    >)
        ensures
            match assign(environment_views(old(scopes)@), at, *token, value@) {
                Ok(after) => r is Ok && environment_views(final(scopes)@) == after,
                Err(e) => r == Err::<(), RuntimeError>(e) && environment_views(final(scopes)@)
                    == environment_views(old(scopes)@),
            },
    {
        match Self::defining_scope(scopes, at, token.lexeme.as_slice()) {
            Some(scope) => {
                Self::define_in(scopes, scope, share(&token.lexeme), value);
                Ok(())
            },
            None => Err(
                RuntimeError::named(share(token), "Cannot assign a value to '", "' before it is declared"),
            ),
        }
    }

    /// Binds `token`'s name to `value` in the scope `distance` links out
    /// from the one at `at`. Where there is no such scope, nothing changes.
    pub fn assign_at(
        scopes: &mut Vec<Environment>,
        at: usize,
        distance: usize,
        token: &Rc<Token>,
        value: Value,
    ) -> (r: Result<(), RuntimeError>)
        ensures
            match assign_at(environment_views(old(scopes)@), at, distance, *token, value@) {
                Ok(after) => r is Ok && environment_views(final(scopes)@) == after,
                Err(e) => r == Err::<(), RuntimeError>(e) && environment_views(final(scopes)@)
                    == environment_views(old(scopes)@),
            },
    {
        match Self::ancestor(scopes, at, distance) {
            Some(scope) => {
                Self::define_in(scopes, scope, share(&token.lexeme), value);
                Ok(())
            },
            None => Err(
                RuntimeError::named(share(token), "Cannot assign value to '", "' in unreachable scope."),
            ),
        }
    }
}

/// An ancestor is one of the scopes.
pub proof fn lemma_ancestor_in_range(scopes: Seq<EnvironmentView>, at: usize, distance: usize)
    ensures
        ancestor(scopes, at, distance) matches Some(scope) ==> scope < scopes.len(),
    decreases distance,
{
    if at < scopes.len() && distance > 0 {
        match scopes[at as int].enclosing {
            Some(outer) => lemma_ancestor_in_range(scopes, outer, (distance - 1) as usize),
            None => {},
        }
    }
}

/// Binding a name in a scope changes no link: the scope at a given
/// distance is the same before and behind it.
pub proof fn lemma_define_keeps_ancestors(
    scopes: Seq<EnvironmentView>,
    at: usize,
    name: Seq<u8>,
    value: ValueView,
    from: usize,
    distance: usize,
)
    ensures
        ancestor(define(scopes, at, name, value), from, distance) == ancestor(scopes, from, distance),
    decreases distance,
{
    if from < scopes.len() && distance > 0 {
        match scopes[from as int].enclosing {
            Some(outer) => lemma_define_keeps_ancestors(scopes, at, name, value, outer, (distance - 1) as usize),
            None => {},
        }
    }
}

/// Binding a name in the scope that already is the nearest to define it
/// leaves it the nearest.
pub proof fn lemma_define_keeps_defining_scope(
    scopes: Seq<EnvironmentView>,
    at: usize,
    name: Seq<u8>,
    value: ValueView,
    from: usize,
)
    requires
        defining_scope(scopes, from, name) == Some(at),
    ensures
        defining_scope(define(scopes, at, name, value), from, name) == Some(at),
    decreases from,
{
    if from < scopes.len() && !scopes[from as int].values.contains_key(name) {
        match scopes[from as int].enclosing {
            Some(outer) => {
                if outer < from {
                    lemma_define_keeps_defining_scope(scopes, at, name, value, outer);
                }
            },
            None => {},
        }
    }
}

/// Whoever holds a scope sees what was assigned in it: behind an
/// assignment to a variable, made from any scope, a read of the variable
/// from any scope that finds it in the same scope yields the value that
/// was assigned.
pub proof fn a_read_sees_the_last_assignment(
    scopes: Seq<EnvironmentView>,
    writer: usize,
    reader: usize,
    token: Rc<Token>,
    value: ValueView,
)
    requires
        defining_scope(scopes, writer, token.lexeme@) is Some,
        defining_scope(scopes, reader, token.lexeme@) == defining_scope(scopes, writer, token.lexeme@),
    ensures
        assign(scopes, writer, token, value) matches Ok(after) && get(after, reader, token) == Ok::<
            ValueView,
            RuntimeError,
        >(value),
{
    let at = defining_scope(scopes, writer, token.lexeme@)->Some_0;
    lemma_defining_scope_in_range(scopes, writer, token.lexeme@);
    lemma_define_keeps_defining_scope(scopes, at, token.lexeme@, value, reader);
}

/// A value that was bound at a distance is the value that is read at that
/// distance, from the same scope.
pub proof fn a_read_at_a_distance_sees_the_last_assignment(
    scopes: Seq<EnvironmentView>,
    from: usize,
    distance: usize,
    token: Rc<Token>,
    value: ValueView,
)
    requires
        ancestor(scopes, from, distance) is Some,
    ensures
        assign_at(scopes, from, distance, token, value) matches Ok(after) && get_at(
            after,
            from,
            distance,
            token,
        ) == Ok::<ValueView, RuntimeError>(value),
{
    let at = ancestor(scopes, from, distance)->Some_0;
    lemma_ancestor_in_range(scopes, from, distance);
    lemma_define_keeps_ancestors(scopes, at, token.lexeme@, value, from, distance);
}

/// The nearest scope that defines a name is one of the scopes, and it
/// defines the name.
pub proof fn lemma_defining_scope_in_range(scopes: Seq<EnvironmentView>, at: usize, name: Seq<u8>)
    ensures
        defining_scope(scopes, at, name) matches Some(scope) ==> scope < scopes.len()
            && scopes[scope as int].values.contains_key(name),
    decreases at,
{
    if at < scopes.len() && !scopes[at as int].values.contains_key(name) {
        match scopes[at as int].enclosing {
            Some(outer) => {
                if outer < at {
                    lemma_defining_scope_in_range(scopes, outer, name);
                }
            },
            None => {},
        }
    }
}

} // verus!
