//! The heap of a run: its scopes, closures, classes and objects, each kind
//! in a list of its own. A value refers to one of them by its place in its
//! list. Closures, classes and objects are never removed, so a place once
//! handed out stays valid; a scope is given up only where nothing can refer
//! to it, which the theorems of `invariants` show.

use crate::callables::callable::Callable;
use crate::callables::lax_class::class_views;
use crate::callables::lax_class::find_method;
use crate::callables::lax_class::LaxClass;
use crate::callables::lax_class::LaxClassView;
use crate::callables::lax_functions::LaxFn;
use crate::callables::lax_object::LaxObject;
use crate::callables::lax_object::LaxObjectView;
use crate::callables::lax_object::object_views;
use crate::environment::define;
use crate::environment::Environment;
use crate::environment::environment_views;
use crate::environment::EnvironmentView;
use crate::text::append;
use crate::text::append_text;
use crate::text::bytes_of;
use crate::text::copy_range;
use crate::text::to_bytes;
use crate::token::Value;
use crate::token::ValueView;
use std::rc::Rc;
use vstd::prelude::*;

verus! {

/// What `print` writes for a value: a text, or a number, which leaves the
/// interpreter as the bit pattern of its double.
#[derive(Debug)]
pub enum Printed {
    Text(Vec<u8>),
    Number(u64),
}

/// The mathematical form of a `Printed`.
pub enum PrintedView {
    Text(Seq<u8>),
    Number(u64),
}

impl View for Printed {
    type V = PrintedView;

    open spec fn view(&self) -> PrintedView {
        match self {
            Printed::Text(t) => PrintedView::Text(t@),
            Printed::Number(n) => PrintedView::Number(*n),
        }
    }
}

/// The views of a list of printed values, in order.
pub open spec fn printed_views(output: Seq<Printed>) -> Seq<PrintedView> {
    Seq::new(output.len(), |i: int| output[i]@)
}

#[derive(Debug)]
pub struct Heap {
    pub environments: Vec<Environment>,
    pub functions: Vec<LaxFn>,
    pub classes: Vec<LaxClass>,
    pub objects: Vec<LaxObject>,
}

/// The mathematical form of a `Heap`.
pub struct HeapView {
    pub environments: Seq<EnvironmentView>,
    pub functions: Seq<LaxFn>,
    pub classes: Seq<LaxClassView>,
    pub objects: Seq<LaxObjectView>,
}

impl View for Heap {
    type V = HeapView;

    open spec fn view(&self) -> HeapView {
        HeapView {
            environments: environment_views(self.environments@),
            functions: self.functions@,
            classes: class_views(self.classes@),
            objects: object_views(self.objects@),
        }
    }
}

impl HeapView {
    /// The heap with other scopes.
    pub open spec fn with_environments(self, environments: Seq<EnvironmentView>) -> HeapView {
        HeapView { environments, ..self }
    }

    /// The heap with one more scope, which defines nothing.
    pub open spec fn with_new_environment(self, enclosing: Option<usize>) -> HeapView {
        self.with_environments(
            self.environments.push(EnvironmentView { values: Map::empty(), enclosing }),
        )
    }

    /// The heap with `name` bound to `value` in the scope at `at`.
    pub open spec fn define(self, at: usize, name: Seq<u8>, value: ValueView) -> HeapView {
        self.with_environments(define(self.environments, at, name, value))
    }

    /// The heap with one more closure.
    pub open spec fn with_new_function(self, function: LaxFn) -> HeapView {
        HeapView { functions: self.functions.push(function), ..self }
    }

    /// The heap with one more class.
    pub open spec fn with_new_class(self, class: LaxClassView) -> HeapView {
        HeapView { classes: self.classes.push(class), ..self }
    }

    /// The heap with one more object, of the class at `class`, without fields.
    pub open spec fn with_new_object(self, class: usize) -> HeapView {
        HeapView { objects: self.objects.push(LaxObjectView { class, fields: Map::empty() }), ..self }
    }

    /// The heap with the field `name` of the object at `object` set to `value`.
    pub open spec fn set_field(self, object: usize, name: Seq<u8>, value: ValueView) -> HeapView {
        if object < self.objects.len() {
            HeapView {
                objects: self.objects.update(
                    object as int,
                    LaxObjectView {
                        class: self.objects[object as int].class,
                        fields: self.objects[object as int].fields.insert(name, value),
                    },
                ),
                ..self
            }
        } else {
            self
        }
    }

    /// The heap without the scopes from the one at `scope` on, where no
    /// closure and no class was made since there were `functions` closures
    /// and `classes` classes: for then nothing refers to those scopes. The
    /// heap as it is otherwise.
    pub open spec fn released(self, functions: nat, classes: nat, scope: nat) -> HeapView {
        if self.functions.len() == functions && self.classes.len() == classes && scope
            <= self.environments.len() {
            self.with_environments(self.environments.subrange(0, scope as int))
        } else {
            self
        }
    }

    /// The heap with a new scope inside the closure's scope, in which `this`
    /// is bound to `object`.
    pub open spec fn bind(self, method: LaxFn, object: ValueView) -> HeapView {
        self.with_new_environment(Some(method.closure)).define(
            self.environments.len() as usize,
            bytes_of("this"),
            object,
        )
    }

    /// The closure that `bind` makes of `method`: the same declaration, over
    /// the new scope.
    pub open spec fn bound(self, method: LaxFn) -> LaxFn {
        LaxFn {
            declaration: method.declaration,
            closure: self.environments.len() as usize,
            is_init: method.is_init,
        }
    }

    /// The name of the class at `class`; of a place that holds none, no name.
    pub open spec fn class_name(self, class: usize) -> Seq<u8> {
        if class < self.classes.len() {
            self.classes[class as int].name
        } else {
            Seq::empty()
        }
    }

    /// What `print` writes for a value: a string as it is, `true`, `false`
    /// and `nil` as these words, a class as its name, an object as its
    /// class's name and ` instance`, a function as `<fn name>`, a native
    /// function as `<native fn>`, and a number as itself.
    pub open spec fn printed(self, value: ValueView) -> PrintedView {
        match value {
            ValueView::String(s) => PrintedView::Text(s),
            ValueView::Num(n) => PrintedView::Number(n),
            ValueView::Bool(b) => PrintedView::Text(
                if b {
                    bytes_of("true")
                } else {
                    bytes_of("false")
                },
            ),
            ValueView::Nil => PrintedView::Text(bytes_of("nil")),
            ValueView::Callable(Callable::NativeFn(_)) => PrintedView::Text(bytes_of("<native fn>")),
            ValueView::Callable(Callable::LaxFn(f)) => PrintedView::Text(
                if f < self.functions.len() {
                    bytes_of("<fn ") + self.functions[f as int].declaration.token.lexeme@ + bytes_of(
                        ">",
                    )
                } else {
                    bytes_of("<fn>")
                },
            ),
            ValueView::Callable(Callable::LaxClass(c)) => PrintedView::Text(self.class_name(c)),
            ValueView::LaxObject(o) => PrintedView::Text(
                if o < self.objects.len() {
                    self.class_name(self.objects[o as int].class) + bytes_of(" instance")
                } else {
                    bytes_of(" instance")
                },
            ),
        }
    }

    /// The number of arguments that a call of `callee` must hand over: for
    /// a class, as many as its initializer takes, and none without one.
    pub open spec fn arity(self, callee: Callable) -> usize {
        match callee {
            Callable::NativeFn(n) => n.arity,
            Callable::LaxFn(f) => if f < self.functions.len() {
                self.functions[f as int].spec_arity()
            } else {
                0
            },
            Callable::LaxClass(c) => match find_method(self.classes, c, bytes_of("init")) {
                Some(init) => init.spec_arity(),
                None => 0,
            },
        }
    }
}

impl Heap {
    /// A heap that holds nothing.
    pub fn new() -> (r: Self)
        ensures
            r@ == (HeapView {
                environments: Seq::empty(),
                functions: Seq::empty(),
                classes: Seq::empty(),
                objects: Seq::empty(),
            }),
    {
        let r = Heap {
            environments: Vec::new(),
            functions: Vec::new(),
            classes: Vec::new(),
            objects: Vec::new(),
        };
        proof {
            assert(r@.environments =~= Seq::empty());
            assert(r@.classes =~= Seq::empty());
            assert(r@.objects =~= Seq::empty());
        }
        r
    }

    /// Adds a scope that defines nothing, inside the scope at `enclosing`.
    pub fn new_environment(&mut self, enclosing: Option<usize>) -> (r: usize)
        ensures
            r == old(self)@.environments.len(),
            final(self)@ == old(self)@.with_new_environment(enclosing),
    {
        Environment::new_wrapped(&mut self.environments, enclosing)
    }

    /// Binds `name` to `value` in the scope at `at`, if there is one.
    pub fn define(&mut self, at: usize, name: Rc<Vec<u8>>, value: Value)
        ensures
            final(self)@ == old(self)@.define(at, name@, value@),
    {
        Environment::define_in(&mut self.environments, at, name, value);
    }

    /// Gives up the scopes from the one at `scope` on, where no closure and
    /// no class was made since there were `functions` closures and
    /// `classes` classes.
    pub fn release(&mut self, functions: usize, classes: usize, scope: usize)
        ensures
            final(self)@ == old(self)@.released(functions as nat, classes as nat, scope as nat),
    {
        if self.functions.len() == functions && self.classes.len() == classes && scope
            <= self.environments.len() {
            self.environments.truncate(scope);
            proof {
                assert(environment_views(self.environments@) =~= environment_views(
                    old(self).environments@,
                ).subrange(0, scope as int));
            }
        }
    }

    /// Adds a closure.
    pub fn new_function(&mut self, function: LaxFn) -> (r: usize)
        ensures
            r == old(self)@.functions.len(),
            final(self)@ == old(self)@.with_new_function(function),
    {
        let at = self.functions.len();
        self.functions.push(function);
        at
    }

    /// Adds a class.
    pub fn new_class(&mut self, class: LaxClass) -> (r: usize)
        ensures
            r == old(self)@.classes.len(),
            final(self)@ == old(self)@.with_new_class(class@),
    {
        let at = self.classes.len();
        self.classes.push(class);
        proof {
            assert(class_views(self.classes@) =~= class_views(old(self).classes@).push(class@));
        }
        at
    }

    /// Adds an object of the class at `class`, without fields.
    pub fn new_object(&mut self, class: usize) -> (r: usize)
        ensures
            r == old(self)@.objects.len(),
            final(self)@ == old(self)@.with_new_object(class),
    {
        let at = self.objects.len();
        let object = LaxObject::new(class);
        self.objects.push(object);
        proof {
            assert(object_views(self.objects@) =~= object_views(old(self).objects@).push(object@));
        }
        at
    }

    /// Sets the field `name` of the object at `object`, if there is one.
    pub fn set_field(&mut self, object: usize, name: Rc<Vec<u8>>, value: Value)
        ensures
            final(self)@ == old(self)@.set_field(object, name@, value@),
    {
        if object < self.objects.len() {
            self.objects[object].fields.insert(name, value);
        }
        proof {
            assert(object_views(self.objects@) =~= old(self)@.set_field(object, name@, value@).objects);
        }
    }

    /// The name of the class at `class`.
    fn class_name(&self, class: usize) -> (r: Vec<u8>)
        ensures
            r@ == self@.class_name(class),
    {
        if class < self.classes.len() {
            let name = &self.classes[class].name;
            let r = copy_range(name, 0, name.len());
            proof {
                assert(name@.subrange(0, name@.len() as int) =~= name@);
            }
            r
        } else {
            Vec::new()
        }
    }

    /// What `print` writes for `value`.
    pub fn printed(&self, value: &Value) -> (r: Printed)
        ensures
            r@ == self@.printed(value@),
    {
        match value {
            Value::String(s) => {
                let r = copy_range(s, 0, s.len());
                proof {
                    assert(s@.subrange(0, s@.len() as int) =~= s@);
                }
                Printed::Text(r)
            },
            Value::Num(n) => Printed::Number(*n),
            Value::Bool(b) => Printed::Text(
                if *b {
                    to_bytes("true")
                } else {
                    to_bytes("false")
                },
            ),
            Value::Nil => Printed::Text(to_bytes("nil")),
            Value::Callable(Callable::NativeFn(_)) => Printed::Text(to_bytes("<native fn>")),
            Value::Callable(Callable::LaxFn(f)) => {
                if *f < self.functions.len() {
                    let mut out = to_bytes("<fn ");
                    append(&mut out, self.functions[*f].declaration.token.lexeme.as_slice());
                    append_text(&mut out, ">");
                    Printed::Text(out)
                } else {
                    Printed::Text(to_bytes("<fn>"))
                }
            },
            Value::Callable(Callable::LaxClass(c)) => Printed::Text(self.class_name(*c)),
            Value::LaxObject(o) => {
                if *o < self.objects.len() {
                    let mut out = self.class_name(self.objects[*o].class);
                    append_text(&mut out, " instance");
                    Printed::Text(out)
                } else {
                    Printed::Text(to_bytes(" instance"))
                }
            },
        }
    }

    /// The number of arguments that a call of `callee` must hand over.
    pub fn arity(&self, callee: &Callable) -> (r: usize)
        ensures
            r == self@.arity(*callee),
    {
        match callee {
            Callable::NativeFn(n) => n.arity,
            Callable::LaxFn(f) => {
                if *f < self.functions.len() {
                    self.functions[*f].arity()
                } else {
                    0
                }
            },
            Callable::LaxClass(c) => {
                let name = to_bytes("init");
                match LaxClass::find_method(&self.classes, *c, name.as_slice()) {
                    Some(init) => init.arity(),
                    None => 0,
                }
            },
        }
    }
}

} // verus!
