//! Objects: instances of classes, with their fields.

use crate::error::RuntimeError;
use crate::interpreter::Interpreter;
use crate::semantics::property;
use crate::table::Table;
use crate::text::share;
use crate::token::Token;
use crate::token::Value;
use crate::token::ValueView;
use std::rc::Rc;
use vstd::prelude::*;

verus! {

/// An object: its class, known by its place among the classes of the heap,
/// and its fields.
#[derive(Debug)]
pub struct LaxObject {
    pub class: usize,
    pub fields: Table<Value>,
}

/// The mathematical form of a `LaxObject`.
pub struct LaxObjectView {
    pub class: usize,
    pub fields: Map<Seq<u8>, ValueView>,
}

impl View for LaxObject {
    type V = LaxObjectView;

    open spec fn view(&self) -> LaxObjectView {
        LaxObjectView { class: self.class, fields: self.fields@ }
    }
}

/// The views of a list of objects, in order.
pub open spec fn object_views(objects: Seq<LaxObject>) -> Seq<LaxObjectView> {
    Seq::new(objects.len(), |i: int| objects[i]@)
}

impl LaxObject {
    /// An object of the class at `class`, without fields.
    pub fn new(class: usize) -> (r: Self)
        ensures
            r@ == (LaxObjectView { class, fields: Map::empty() }),
    {
        LaxObject { class, fields: Table::new() }
    }
}

impl LaxObject {
    /// The property that `token` names of the object at `object`: a field,
    /// or else a method of its class, bound to the object.
    pub fn get(interpreter: &mut Interpreter, object: usize, token: &Rc<Token>) -> (r: Result<
        Value,
        RuntimeError,
    >)
        ensures
            final(interpreter).evaluated(r, property(old(interpreter)@, object, *token)),
            final(interpreter).fuel == old(interpreter).fuel,
    {
        if object >= interpreter.heap.objects.len() {
            return Err(RuntimeError::new(share(token), "Only instances have properties."));
        }
        match interpreter.heap.objects[object].fields.get(token.lexeme.as_slice()) {
            Some(field) => {
                return Ok(field.copy());
            },
            None => {},
        }
        let class = interpreter.heap.objects[object].class;
        interpreter.bound_method(class, token, Value::LaxObject(object))
    }

    /// Sets the field that `token` names to `value`.
    pub fn set(&mut self, token: &Rc<Token>, value: Value)
        ensures
            final(self)@ == (LaxObjectView {
                class: old(self).class,
                fields: old(self)@.fields.insert(token.lexeme@, value@),
            }),
    {
        self.fields.insert(share(&token.lexeme), value);
    }
}

} // verus!
