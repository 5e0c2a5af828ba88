//! Classes: a name, the methods declared in the class, and the superclass.

use crate::callables::lax_functions::LaxFn;
use crate::error::RuntimeError;
use crate::interpreter::Interpreter;
use crate::interpreter::value_views;
use crate::semantics::instantiate;
use crate::table::Table;
use crate::text::to_bytes;
use crate::token::Token;
use crate::token::Value;
use std::rc::Rc;
use vstd::prelude::*;

verus! {

/// A class. Its superclass, if it has one, is known by its place among the
/// classes of the heap.
#[derive(Debug)]
pub struct LaxClass {
    pub name: Rc<Vec<u8>>,
    pub methods: Table<LaxFn>,
    pub superclass: Option<usize>,
}

/// The mathematical form of a `LaxClass`.
pub struct LaxClassView {
    pub name: Seq<u8>,
    pub methods: Map<Seq<u8>, LaxFn>,
    pub superclass: Option<usize>,
}

impl View for LaxClass {
    type V = LaxClassView;

    open spec fn view(&self) -> LaxClassView {
        LaxClassView { name: self.name@, methods: self.methods@, superclass: self.superclass }
    }
}

/// The views of a list of classes, in order.
pub open spec fn class_views(classes: Seq<LaxClass>) -> Seq<LaxClassView> {
    Seq::new(classes.len(), |i: int| classes[i]@)
}

/// The method that `name` denotes in the class at `class`: the one declared
/// there, or else the one that the name denotes in its superclass. A
/// superclass always stands before its subclasses; a link that points
/// elsewhere is not followed.
pub open spec fn find_method(classes: Seq<LaxClassView>, class: usize, name: Seq<u8>) -> Option<LaxFn>
    decreases class,
{
    if class >= classes.len() {
        None
    } else if classes[class as int].methods.contains_key(name) {
        Some(classes[class as int].methods[name])
    } else {
        match classes[class as int].superclass {
            Some(parent) => if parent < class {
                find_method(classes, parent, name)
            } else {
                None
            },
            None => None,
        }
    }
}

impl LaxClass {
    pub fn new(name: Rc<Vec<u8>>, methods: Table<LaxFn>, superclass: Option<usize>) -> (r: Self)
        ensures
            r == (LaxClass { name, methods, superclass }),
    {
        LaxClass { name, methods, superclass }
    }

    /// The method that `name` denotes in the class at `class`.
    pub fn find_method(classes: &Vec<LaxClass>, class: usize, name: &[u8]) -> (r: Option<LaxFn>)
        ensures
            r == find_method(class_views(classes@), class, name@),
    {
        let mut at = class;
        loop
            invariant
                find_method(class_views(classes@), at, name@) == find_method(
                    class_views(classes@),
                    class,
                    name@,
                ),
            decreases at,
        {
            if at >= classes.len() {
                return None;
            }
            match classes[at].methods.get(name) {
                Some(method) => {
                    return Some(method.copy());
                },
                None => {},
            }
            match classes[at].superclass {
                Some(parent) => {
                    if parent < at {
                        at = parent;
                    } else {
                        return None;
                    }
                },
                None => {
                    return None;
                },
            }
        }
    }
}

impl LaxClass {
    /// Calls the class at `class`: makes an object of it, and calls the
    /// initializer, if the class has one, on the object.
    pub fn call(class: usize, interpreter: &mut Interpreter, args: Vec<Value>, paren: &Rc<Token>, fuel: u64) -> (r: Result<
        Value,
        RuntimeError,
    >)
        ensures
            final(interpreter).evaluated(
                r,
                instantiate(old(interpreter)@, class, value_views(args@), *paren, fuel as nat),
            ),
            final(interpreter).fuel == old(interpreter).fuel,
        decreases fuel, 0int, paren, 2int,
    {
        let object = interpreter.heap.new_object(class);
        let name = to_bytes("init");
        match LaxClass::find_method(&interpreter.heap.classes, class, name.as_slice()) {
            Some(init) => {
                let bound = init.bind(&mut interpreter.heap, Value::LaxObject(object));
                bound.call(interpreter, args, paren, fuel)?;
            },
            None => {},
        }
        Ok(Value::LaxObject(object))
    }
}

} // verus!
