use vstd::prelude::*;

use crate::interpreter::{Artichoke, ArtichokeView};
use crate::types::{Ruby, Rust};
use crate::value::Value;

verus! {

/// A failed conversion: the runtime type that was found and the host type
/// that was asked for.
#[derive(Debug, Clone, Copy, PartialEq, Eq, Hash, Structural)]
pub struct Error {
    pub from: Ruby,
    pub to: Rust,
}

/// Conversion of a host value of type `T` into the runtime. It never fails;
/// it may allocate, and leaves every existing heap value where it was.
pub trait Convert<T>: Sized {
    fn convert(interp: &mut Artichoke, value: T) -> (r: Self)
        requires
            old(interp)@.wf(),
        ensures
            final(interp)@.wf(),
            final(interp)@.extends(old(interp)@),
    ;
}

/// Conversion of a runtime value into a host value. It fails with an
/// [`Error`] where the runtime value does not have the shape asked for, and
/// never changes the interpreter.
pub trait TryConvert: Sized {
    fn try_convert(interp: &Artichoke, value: Value) -> (r: Result<Self, Error>)
        requires
            interp@.wf(),
            interp@.valid_value(value),
    ;
}

/// The error for a value of the wrong runtime type.
pub open spec fn mismatch(value: Value, to: Rust) -> Error {
    Error { from: value.ruby_type(), to }
}

/// What converting `v` to a host `bool` gives.
pub open spec fn bool_of(v: Value) -> Result<bool, Error> {
    match v {
        Value::Bool(b) => Ok(b),
        _ => Err(mismatch(v, Rust::Bool)),
    }
}

/// What converting `v` to a host `Option<bool>` gives: `nil` is `None`, and
/// anything else is converted as a `bool`, failing as that conversion fails.
pub open spec fn option_bool_of(v: Value) -> Result<Option<bool>, Error> {
    match v {
        Value::Nil => Ok(None),
        _ => match bool_of(v) {
            Ok(b) => Ok(Some(b)),
            Err(e) => Err(e),
        },
    }
}

/// What converting `v` to a host `i64` gives.
pub open spec fn int_of(v: Value) -> Result<i64, Error> {
    match v {
        Value::Fixnum(n) => Ok(n),
        _ => Err(mismatch(v, Rust::SignedInt)),
    }
}

/// The element at `i` is the first one that `f` fails on.
pub open spec fn first_failure<T>(
    items: Seq<Value>,
    f: spec_fn(Value) -> Result<T, Error>,
    i: int,
) -> bool {
    &&& 0 <= i < items.len()
    &&& f(items[i]) is Err
    &&& forall|j: int| 0 <= j < i ==> (#[trigger] f(items[j])) is Ok
}

/// Converting every element with `f`: the results in order where all
/// succeed, else the error of the first element that fails, unchanged.
pub open spec fn convert_all<T>(items: Seq<Value>, f: spec_fn(Value) -> Result<T, Error>) -> Result<
    Seq<T>,
    Error,
> {
    if exists|i: int| first_failure(items, f, i) {
        Err(f(items[choose|i: int| first_failure(items, f, i)])->Err_0)
    } else {
        Ok(items.map_values(|x: Value| f(x)->Ok_0))
    }
}

/// Where every element converts, the conversion of all of them is the
/// sequence of the results.
pub proof fn lemma_convert_all_ok<T>(items: Seq<Value>, f: spec_fn(Value) -> Result<T, Error>)
    requires
        forall|j: int| 0 <= j < items.len() ==> (#[trigger] f(items[j])) is Ok,
    ensures
        convert_all(items, f) == Ok::<Seq<T>, Error>(items.map_values(|x: Value| f(x)->Ok_0)),
{
}

/// Where the element at `i` is the first to fail, the conversion of all of
/// them fails with its error.
pub proof fn lemma_convert_all_err<T>(
    items: Seq<Value>,
    f: spec_fn(Value) -> Result<T, Error>,
    i: int,
)
    requires
        first_failure(items, f, i),
    ensures
        convert_all(items, f) == Err::<Seq<T>, Error>(f(items[i])->Err_0),
{
    let k = choose|k: int| first_failure(items, f, k);
    if k < i {
        assert(f(items[k]) is Ok);
    } else if k > i {
        assert(f(items[i]) is Ok);
    }
}

impl ArtichokeView {
    /// What converting `v` to a host string gives.
    pub open spec fn str_of(self, v: Value) -> Result<Seq<char>, Error> {
        match v {
            Value::String(i) => Ok(self.strings[i as int]),
            _ => Err(mismatch(v, Rust::String)),
        }
    }

    /// The interpreter after a new array holding `items` is allocated.
    pub open spec fn with_array(self, items: Seq<Value>) -> ArtichokeView {
        ArtichokeView { arrays: self.arrays.push(items), ..self }
    }

    /// The handles, with each one that does not belong to this interpreter
    /// replaced by `nil`.
    pub open spec fn own_or_nil(self, vs: Seq<Value>) -> Seq<Value> {
        vs.map_values(|v: Value| if self.valid_value(v) { v } else { Value::Nil })
    }

    /// What converting `v` to a host vector of runtime values gives.
    pub open spec fn values_of(self, v: Value) -> Result<Seq<Value>, Error> {
        match v {
            Value::Array(i) => Ok(self.arrays[i as int]),
            _ => Err(mismatch(v, Rust::Vec)),
        }
    }
}

impl Convert<bool> for Value {
    fn convert(interp: &mut Artichoke, value: bool) -> (r: Value)
        ensures
            r == Value::Bool(value),
            final(interp)@ == old(interp)@,
    {
        Value::Bool(value)
    }
}

impl Convert<Option<bool>> for Value {
    fn convert(interp: &mut Artichoke, value: Option<bool>) -> (r: Value)
        ensures
            r == (match value {
                Some(b) => Value::Bool(b),
                None => Value::Nil,
            }),
            final(interp)@ == old(interp)@,
    {
        match value {
            Some(b) => Value::Bool(b),
            None => Value::Nil,
        }
    }
}

impl Convert<i64> for Value {
    fn convert(interp: &mut Artichoke, value: i64) -> (r: Value)
        ensures
            r == Value::Fixnum(value),
            final(interp)@ == old(interp)@,
    {
        Value::Fixnum(value)
    }
}

impl Convert<String> for Value {
    fn convert(interp: &mut Artichoke, value: String) -> (r: Value)
        ensures
            r is String && r->String_0 == old(interp)@.strings.len(),
            final(interp)@ == (ArtichokeView {
                strings: old(interp)@.strings.push(value@),
                ..old(interp)@
            }),
            final(interp)@.str_of(r) == Ok::<Seq<char>, Error>(value@),
            final(interp)@.valid_value(r),
    {
        interp.new_string(value)
    }
}

impl Convert<Vec<Value>> for Value {
    /// Builds one runtime array from the handles, in order. A handle that
    /// does not belong to the interpreter is replaced by `nil`.
    fn convert(interp: &mut Artichoke, value: Vec<Value>) -> (r: Value)
        ensures
            r is Array && r->Array_0 == old(interp)@.arrays.len(),
            final(interp)@ == old(interp)@.with_array(old(interp)@.own_or_nil(value@)),
            old(interp)@.valid_values(value@) ==> final(interp)@ == old(interp)@.with_array(value@),
            final(interp)@.valid_value(r),
            final(interp)@.arrays[r->Array_0 as int].len() == value@.len(),
    {
        let mut items = value;
        let mut i: usize = 0;
        while i < items.len()
            invariant
                interp@.wf(),
                interp@ == old(interp)@,
                items@.len() == value@.len(),
                forall|j: int| 0 <= j < i ==> #[trigger] items@[j] == interp@.own_or_nil(value@)[j],
                forall|j: int| i <= j < items@.len() ==> #[trigger] items@[j] == value@[j],
            decreases items.len() - i,
        {
            if !interp.valid_handle(items[i]) {
                items.set(i, Value::Nil);
            }
            i += 1;
        }
        assert(items@ =~= interp@.own_or_nil(value@));
        proof {
            if interp@.valid_values(value@) {
                assert forall|j: int| 0 <= j < value@.len() implies items@[j] == value@[j] by {
                    assert(interp@.valid_value(value@[j]));
                }
                assert(items@ =~= value@);
            }
            assert forall|j: int| 0 <= j < items@.len() implies #[trigger] interp@.valid_value(
                items@[j],
            ) by {
                assert(items@[j] == interp@.own_or_nil(value@)[j]);
            }
        }
        interp.new_array(items)
    }
}

impl TryConvert for bool {
    fn try_convert(interp: &Artichoke, value: Value) -> (r: Result<bool, Error>)
        ensures
            r == bool_of(value),
    {
        match value {
            Value::Bool(b) => Ok(b),
            _ => Err(Error { from: value.ruby_type(), to: Rust::Bool }),
        }
    }
}

impl TryConvert for Option<bool> {
    fn try_convert(interp: &Artichoke, value: Value) -> (r: Result<Option<bool>, Error>)
        ensures
            r == option_bool_of(value),
    {
        if value.is_nil() {
            Ok(None)
        } else {
            match bool::try_convert(interp, value) {
                Ok(b) => Ok(Some(b)),
                Err(e) => Err(e),
            }
        }
    }
}

impl TryConvert for i64 {
    fn try_convert(interp: &Artichoke, value: Value) -> (r: Result<i64, Error>)
        ensures
            r == int_of(value),
    {
        match value {
            Value::Fixnum(n) => Ok(n),
            _ => Err(Error { from: value.ruby_type(), to: Rust::SignedInt }),
        }
    }
}

impl TryConvert for String {
    fn try_convert(interp: &Artichoke, value: Value) -> (r: Result<String, Error>)
        ensures
            r matches Ok(s) ==> interp@.str_of(value) == Ok::<Seq<char>, Error>(s@),
            r matches Err(e) ==> interp@.str_of(value) == Err::<Seq<char>, Error>(e),
    {
        match value {
            Value::String(id) => Ok(interp.string_at(id).clone()),
            _ => Err(Error { from: value.ruby_type(), to: Rust::String }),
        }
    }
}

impl TryConvert for Vec<Value> {
    fn try_convert(interp: &Artichoke, value: Value) -> (r: Result<Vec<Value>, Error>)
        ensures
            r matches Ok(v) ==> interp@.values_of(value) == Ok::<Seq<Value>, Error>(v@),
            r matches Err(e) ==> interp@.values_of(value) == Err::<Seq<Value>, Error>(e),
    {
        match value {
            Value::Array(id) => {
                let items = interp.array_items(id);
                let mut out: Vec<Value> = Vec::with_capacity(items.len());
                let mut i: usize = 0;
                while i < items.len()
                    invariant
                        i <= items@.len(),
                        out@ == items@.subrange(0, i as int),
                    decreases items.len() - i,
                {
                    out.push(items[i]);
                    i += 1;
                }
                assert(out@ =~= items@);
                Ok(out)
            },
            _ => Err(Error { from: value.ruby_type(), to: Rust::Vec }),
        }
    }
}

} // verus!
