use vstd::prelude::*;

use crate::types::Ruby;

verus! {

/// A handle to a value owned by an interpreter.
///
/// Immediate values (`nil`, booleans and fixnums) are carried in the handle
/// itself. Heap values carry the index of their slot in the interpreter's
/// arena for that kind of value; such a handle means something only together
/// with the interpreter that produced it.
#[derive(Debug, Clone, Copy, PartialEq, Eq, Hash, Structural)]
pub enum Value {
    Nil,
    Bool(bool),
    Fixnum(i64),
    /// A string, by its slot in the string arena.
    String(usize),
    /// An array, by its slot in the array arena.
    Array(usize),
    /// An instance of a class with no native backing, by its object slot.
    Object(usize),
    /// An instance that may carry native host state, by its object slot.
    Data(usize),
}

impl Value {
    /// The runtime type of the value, read off its tag.
    pub open spec fn ruby_type_spec(self) -> Ruby {
        match self {
            Value::Nil => Ruby::Nil,
            Value::Bool(_) => Ruby::Bool,
            Value::Fixnum(_) => Ruby::Fixnum,
            Value::String(_) => Ruby::String,
            Value::Array(_) => Ruby::Array,
            Value::Object(_) => Ruby::Object,
            Value::Data(_) => Ruby::Data,
        }
    }

    /// The runtime type of the value.
    #[verifier::when_used_as_spec(ruby_type_spec)]
    pub fn ruby_type(self) -> (r: Ruby)
        ensures
            r == self.ruby_type_spec(),
    {
        match self {
            Value::Nil => Ruby::Nil,
            Value::Bool(_) => Ruby::Bool,
            Value::Fixnum(_) => Ruby::Fixnum,
            Value::String(_) => Ruby::String,
            Value::Array(_) => Ruby::Array,
            Value::Object(_) => Ruby::Object,
            Value::Data(_) => Ruby::Data,
        }
    }

    /// Whether the value is the `nil` singleton.
    pub fn is_nil(self) -> (r: bool)
        ensures
            r == (self is Nil),
    {
        match self {
            Value::Nil => true,
            _ => false,
        }
    }
}

} // verus!
