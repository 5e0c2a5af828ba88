//! What can be called: native functions, functions of a program, classes.

use crate::ast::stmt::Func;
use crate::callables::lax_class::LaxClass;
use crate::callables::lax_class::LaxClassView;
use crate::callables::lax_functions::LaxFn;
use crate::heap::Heap;
use crate::table::Table;
use std::rc::Rc;
use vstd::prelude::*;

verus! {

/// The kind of function body that is being looked at.
#[derive(Debug, Clone, Copy, PartialEq, Eq, Structural)]
pub enum FuncType {
    Function,
    Method,
    Initializer,
    /// Outside every function.
    Toplevel,
}

/// The host code behind a native function.
#[derive(Debug, Clone, Copy, PartialEq, Eq, Structural)]
pub enum Native {
    /// Seconds since the Unix epoch.
    Clock,
}

/// A function whose body is host code.
#[derive(Debug, Clone, Copy)]
pub struct NativeFn {
    pub func: Native,
    pub arity: usize,
    pub name: &'static str,
}

/// A callable value. Functions and classes live in the interpreter's heap
/// and are known by their place there, so that two values are the same
/// callable exactly when they are equal.
#[derive(Debug, Clone, Copy)]
pub enum Callable {
    NativeFn(NativeFn),
    LaxFn(usize),
    LaxClass(usize),
}

impl Callable {
    /// A native function of the given name and arity.
    pub fn new_native_fn(name: &'static str, func: Native, arity: usize) -> (r: Self)
        ensures
            r == Callable::NativeFn(NativeFn { func, arity, name }),
    {
        Callable::NativeFn(NativeFn { func, arity, name })
    }

    /// A new closure in the heap.
    pub fn new_lax_fn(heap: &mut Heap, declaration: Rc<Func>, closure: usize, is_init: bool) -> (r: Self)
        ensures
            r == Callable::LaxFn(old(heap)@.functions.len() as usize),
            final(heap)@ == old(heap)@.with_new_function(LaxFn { declaration, closure, is_init }),
    {
        Callable::LaxFn(heap.new_function(LaxFn::new(declaration, closure, is_init)))
    }

    /// A new class in the heap.
    pub fn new_lax_class(
        heap: &mut Heap,
        name: Rc<Vec<u8>>,
        methods: Table<LaxFn>,
        superclass: Option<usize>,
    ) -> (r: Self)
        ensures
            r == Callable::LaxClass(old(heap)@.classes.len() as usize),
            final(heap)@ == old(heap)@.with_new_class(
                LaxClassView { name: name@, methods: methods@, superclass },
            ),
    {
        Callable::LaxClass(heap.new_class(LaxClass::new(name, methods, superclass)))
    }
}

} // verus!
