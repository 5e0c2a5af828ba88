//! The native functions, which every run finds among its globals.

use crate::callables::callable::Callable;
use crate::callables::callable::Native;
use crate::callables::callable::NativeFn;
use crate::heap::Heap;
use crate::heap::HeapView;
use crate::text::bytes_of;
use crate::text::to_bytes;
use crate::token::Value;
use crate::token::ValueView;
use std::rc::Rc;
use vstd::prelude::*;

verus! {

/// `clock`, which takes no argument and tells the time as seconds since
/// the Unix epoch.
pub open spec fn clock_fn() -> Callable {
    Callable::NativeFn(NativeFn { func: Native::Clock, arity: 0, name: "clock" })
}

/// The heap with the native functions defined in the scope at `globals`.
pub open spec fn with_natives(heap: HeapView, globals: usize) -> HeapView {
    heap.define(globals, bytes_of("clock"), ValueView::Callable(clock_fn()))
}

/// The scope that the native functions are declared in.
pub struct NativeDeclarations {
    pub globals: usize,
}

impl NativeDeclarations {
    pub fn new(globals: usize) -> (r: Self)
        ensures
            r.globals == globals,
    {
        NativeDeclarations { globals }
    }

    /// Defines every native function in the globals, and hands out their place.
    pub fn declare_natives(&mut self, heap: &mut Heap) -> (r: usize)
        ensures
            r == old(self).globals,
            final(self).globals == old(self).globals,
            final(heap)@ == with_natives(old(heap)@, old(self).globals),
    {
        self.declare_clock(heap);
        self.globals
    }

    fn declare_clock(&mut self, heap: &mut Heap)
        ensures
            final(self).globals == old(self).globals,
            final(heap)@ == with_natives(old(heap)@, old(self).globals),
    {
        let callable = Callable::new_native_fn("clock", Native::Clock, 0);
        heap.define(self.globals, Rc::new(to_bytes("clock")), Value::Callable(callable));
    }
}

} // verus!
