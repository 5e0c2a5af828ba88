//! Functions of a program: a declaration together with the scope it was
//! declared in.

use crate::ast::list::List;
use crate::ast::stmt::Func;
use crate::environment::Environment;
use crate::environment::Missing;
use crate::error::RuntimeError;
use crate::heap::Heap;
use crate::interpreter::Interpreter;
use crate::interpreter::value_views;
use crate::semantics::bind_params;
use crate::semantics::call_function;
use crate::text::share;
use crate::text::to_bytes;
use crate::token::Token;
use crate::token::Value;
use std::rc::Rc;
use vstd::prelude::*;

verus! {

/// A closure: the declaration, the scope that was active where it was
/// declared, and whether it is the initializer of a class.
#[derive(Debug)]
pub struct LaxFn {
    pub declaration: Rc<Func>,
    pub closure: usize,
    pub is_init: bool,
}

impl View for LaxFn {
    type V = LaxFn;

    open spec fn view(&self) -> LaxFn {
        *self
    }
}

impl LaxFn {
    /// The number of parameters, or `usize::MAX` where there are more.
    pub open spec fn spec_arity(self) -> usize {
        if self.declaration.params.count() <= usize::MAX {
            self.declaration.params.count() as usize
        } else {
            usize::MAX
        }
    }

    pub fn new(declaration: Rc<Func>, closure: usize, is_init: bool) -> (r: Self)
        ensures
            r == (LaxFn { declaration, closure, is_init }),
    {
        LaxFn { declaration, closure, is_init }
    }

    /// A second handle to the same closure.
    pub fn copy(&self) -> (r: LaxFn)
        ensures
            r == *self,
    {
        LaxFn { declaration: share(&self.declaration), closure: self.closure, is_init: self.is_init }
    }

    /// The number of arguments that a call must hand over.
    pub fn arity(&self) -> (r: usize)
        ensures
            r == self.spec_arity(),
    {
        self.declaration.params.len()
    }
}

impl LaxFn {
    /// The closure over a new scope, inside this closure's scope, in which
    /// `this` is bound to `object`.
    pub fn bind(&self, heap: &mut Heap, object: Value) -> (r: Self)
        ensures
            final(heap)@ == old(heap)@.bind(*self, object@),
            r == old(heap)@.bound(*self),
    {
        let scope = heap.new_environment(Some(self.closure));
        heap.define(scope, Rc::new(to_bytes("this")), object);
        LaxFn::new(share(&self.declaration), scope, self.is_init)
    }

    /// Binds the parameters from `params` on to the arguments from the
    /// `i`-th on, in the scope at `scope`.
    fn bind_params(heap: &mut Heap, scope: usize, params: &List<Rc<Token>>, args: &Vec<Value>)
        ensures
            final(heap)@ == old(heap)@.with_environments(
                bind_params(old(heap)@.environments, scope, *params, value_views(args@), 0),
            ),
    {
        let mut rest = params;
        let mut i: usize = 0;
        loop
            invariant
                i <= args.len(),
                heap@.functions == old(heap)@.functions,
                heap@.classes == old(heap)@.classes,
                heap@.objects == old(heap)@.objects,
                bind_params(heap@.environments, scope, *rest, value_views(args@), i as int) == bind_params(
                    old(heap)@.environments,
                    scope,
                    *params,
                    value_views(args@),
                    0,
                ),
            decreases rest,
        {
            match rest {
                List::Nil => {
                    return ;
                },
                List::Cons(param, tail) => {
                    if i < args.len() {
                        heap.define(scope, share(&param.lexeme), args[i].copy());
                        i += 1;
                        rest = tail;
                    } else {
                        return ;
                    }
                },
            }
        }
    }

    /// Calls the closure with `args`, of which there are as many as it takes.
    pub fn call(&self, interpreter: &mut Interpreter, args: Vec<Value>, paren: &Rc<Token>, fuel: u64) -> (r: Result<
        Value,
        RuntimeError,
    >)
        ensures
            final(interpreter).evaluated(
                r,
                call_function(old(interpreter)@, *self, value_views(args@), *paren, fuel as nat),
            ),
            final(interpreter).fuel == old(interpreter).fuel,
        decreases fuel, 0int, paren, 1int,
    {
        if fuel == 0 {
            return Err(RuntimeError::new(share(paren), "Too many nested calls."));
        }
        let functions = interpreter.heap.functions.len();
        let classes = interpreter.heap.classes.len();
        let scope = interpreter.heap.new_environment(Some(self.closure));
        Self::bind_params(&mut interpreter.heap, scope, &self.declaration.params, &args);
        let body = interpreter.execute_block(&self.declaration.body, scope, fuel - 1);
        interpreter.heap.release(functions, classes, scope);
        let output = body?;
        if self.is_init {
            let this = to_bytes("this");
            return match Environment::get_named_at(
                &interpreter.heap.environments,
                self.closure,
                0,
                this.as_slice(),
            ) {
                Ok(object) => Ok(object),
                Err(Missing::Scope) => Err(
                    RuntimeError::named(
                        share(&self.declaration.token),
                        "The scope where '",
                        "' is declared cannot be accessed",
                    ),
                ),
                Err(Missing::Name) => Err(
                    RuntimeError::named(
                        share(&self.declaration.token),
                        "'",
                        "' cannot be found in eclosing scopes.",
                    ),
                ),
            };
        }
        match output {
            Some(value) => Ok(value),
            None => Ok(Value::Nil),
        }
    }
}

} // verus!
