use vstd::prelude::*;

use crate::convert::{
    bool_of, convert_all, first_failure, lemma_convert_all_err, lemma_convert_all_ok, mismatch,
    option_bool_of, Convert, Error, TryConvert,
};
use crate::interpreter::{Artichoke, ArtichokeView};
use crate::types::Rust;
use crate::value::Value;

verus! {

/// The runtime values that host booleans convert to, in order.
pub open spec fn bool_values(v: Seq<bool>) -> Seq<Value> {
    v.map_values(|b: bool| Value::Bool(b))
}

/// The runtime value that a host optional boolean converts to.
pub open spec fn option_bool_value(o: Option<bool>) -> Value {
    match o {
        Some(b) => Value::Bool(b),
        None => Value::Nil,
    }
}

/// The runtime values that host optional booleans convert to, in order.
pub open spec fn option_bool_values(v: Seq<Option<bool>>) -> Seq<Value> {
    v.map_values(|o: Option<bool>| option_bool_value(o))
}

/// The views of host strings, in order.
pub open spec fn string_views(v: Seq<String>) -> Seq<Seq<char>> {
    v.map_values(|s: String| s@)
}

impl ArtichokeView {
    /// What converting `v` to a host `Vec<bool>` gives: it must be an array,
    /// and each element converts as a `bool`.
    pub open spec fn bools_of(self, v: Value) -> Result<Seq<bool>, Error> {
        match self.values_of(v) {
            Ok(items) => convert_all(items, |x: Value| bool_of(x)),
            Err(e) => Err(e),
        }
    }

    /// What converting `v` to a host `Vec<Option<bool>>` gives.
    pub open spec fn option_bools_of(self, v: Value) -> Result<Seq<Option<bool>>, Error> {
        match self.values_of(v) {
            Ok(items) => convert_all(items, |x: Value| option_bool_of(x)),
            Err(e) => Err(e),
        }
    }

    /// What converting `v` to a host vector of strings gives.
    pub open spec fn strs_of(self, v: Value) -> Result<Seq<Seq<char>>, Error> {
        match self.values_of(v) {
            Ok(items) => convert_all(items, |x: Value| self.str_of(x)),
            Err(e) => Err(e),
        }
    }
}

impl Convert<Vec<bool>> for Value {
    fn convert(interp: &mut Artichoke, value: Vec<bool>) -> (r: Value)
        ensures
            r is Array && r->Array_0 == old(interp)@.arrays.len(),
            final(interp)@ == old(interp)@.with_array(bool_values(value@)),
            final(interp)@.valid_value(r),
            final(interp)@.arrays[r->Array_0 as int].len() == value@.len(),
    {
        let mut values: Vec<Value> = Vec::with_capacity(value.len());
        let mut i: usize = 0;
        while i < value.len()
            invariant
                i <= value@.len(),
                interp@ == old(interp)@,
                interp@.wf(),
                values@ == bool_values(value@.subrange(0, i as int)),
            decreases value.len() - i,
        {
            let item = Value::convert(interp, value[i]);
            values.push(item);
            i += 1;
            assert(values@ =~= bool_values(value@.subrange(0, i as int)));
        }
        assert(value@.subrange(0, i as int) =~= value@);
        Value::convert(interp, values)
    }
}

impl Convert<Vec<Option<bool>>> for Value {
    fn convert(interp: &mut Artichoke, value: Vec<Option<bool>>) -> (r: Value)
        ensures
            r is Array && r->Array_0 == old(interp)@.arrays.len(),
            final(interp)@ == old(interp)@.with_array(option_bool_values(value@)),
            final(interp)@.valid_value(r),
            final(interp)@.arrays[r->Array_0 as int].len() == value@.len(),
    {
        let mut values: Vec<Value> = Vec::with_capacity(value.len());
        let mut i: usize = 0;
        while i < value.len()
            invariant
                i <= value@.len(),
                interp@ == old(interp)@,
                interp@.wf(),
                values@ == option_bool_values(value@.subrange(0, i as int)),
            decreases value.len() - i,
        {
            let item = Value::convert(interp, value[i]);
            values.push(item);
            i += 1;
            assert(values@ =~= option_bool_values(value@.subrange(0, i as int)));
        }
        assert(value@.subrange(0, i as int) =~= value@);
        Value::convert(interp, values)
    }
}

impl TryConvert for Vec<bool> {
    fn try_convert(interp: &Artichoke, value: Value) -> (r: Result<Vec<bool>, Error>)
        ensures
            r matches Ok(v) ==> interp@.bools_of(value) == Ok::<Seq<bool>, Error>(v@),
            r matches Err(e) ==> interp@.bools_of(value) == Err::<Seq<bool>, Error>(e),
            !(value is Array) ==> r == Err::<Vec<bool>, Error>(mismatch(value, Rust::Vec)),
    {
        let values = match <Vec<Value>>::try_convert(interp, value) {
            Ok(values) => values,
            Err(e) => return Err(e),
        };
        let ghost f = |x: Value| bool_of(x);
        let mut vec: Vec<bool> = Vec::with_capacity(values.len());
        proof {
            if let Value::Array(id) = value {
                assert(interp@.valid_values(interp@.arrays[id as int]));
            }
        }
        let mut i: usize = 0;
        while i < values.len()
            invariant
                i <= values@.len(),
                interp@.wf(),
                interp@.valid_values(values@),
                f == (|x: Value| bool_of(x)),
                interp@.values_of(value) == Ok::<Seq<Value>, Error>(values@),
                forall|j: int| 0 <= j < i ==> (#[trigger] f(values@[j])) is Ok,
                vec@ == values@.subrange(0, i as int).map_values(|x: Value| f(x)->Ok_0),
            decreases values.len() - i,
        {
            match bool::try_convert(interp, values[i]) {
                Ok(b) => {
                    assert(interp@.valid_value(values@[i as int]));
                    vec.push(b);
                },
                Err(e) => {
                    proof {
                        assert(first_failure(values@, f, i as int));
                        lemma_convert_all_err(values@, f, i as int);
                    }
                    return Err(e);
                },
            }
            i += 1;
            assert(vec@ =~= values@.subrange(0, i as int).map_values(|x: Value| f(x)->Ok_0));
        }
        proof {
            lemma_convert_all_ok(values@, f);
            assert(values@.subrange(0, i as int) =~= values@);
        }
        Ok(vec)
    }
}

impl TryConvert for Vec<Option<bool>> {
    fn try_convert(interp: &Artichoke, value: Value) -> (r: Result<Vec<Option<bool>>, Error>)
        ensures
            r matches Ok(v) ==> interp@.option_bools_of(value) == Ok::<Seq<Option<bool>>, Error>(
                v@,
            ),
            r matches Err(e) ==> interp@.option_bools_of(value) == Err::<Seq<Option<bool>>, Error>(
                e,
            ),
            !(value is Array) ==> r == Err::<Vec<Option<bool>>, Error>(mismatch(value, Rust::Vec)),
    {
        let values = match <Vec<Value>>::try_convert(interp, value) {
            Ok(values) => values,
            Err(e) => return Err(e),
        };
        let ghost f = |x: Value| option_bool_of(x);
        let mut vec: Vec<Option<bool>> = Vec::with_capacity(values.len());
        proof {
            if let Value::Array(id) = value {
                assert(interp@.valid_values(interp@.arrays[id as int]));
            }
        }
        let mut i: usize = 0;
        while i < values.len()
            invariant
                i <= values@.len(),
                interp@.wf(),
                interp@.valid_values(values@),
                f == (|x: Value| option_bool_of(x)),
                interp@.values_of(value) == Ok::<Seq<Value>, Error>(values@),
                forall|j: int| 0 <= j < i ==> (#[trigger] f(values@[j])) is Ok,
                vec@ == values@.subrange(0, i as int).map_values(|x: Value| f(x)->Ok_0),
            decreases values.len() - i,
        {
            match <Option<bool>>::try_convert(interp, values[i]) {
                Ok(b) => {
                    assert(interp@.valid_value(values@[i as int]));
                    vec.push(b);
                },
                Err(e) => {
                    proof {
                        assert(first_failure(values@, f, i as int));
                        lemma_convert_all_err(values@, f, i as int);
                    }
                    return Err(e);
                },
            }
            i += 1;
            assert(vec@ =~= values@.subrange(0, i as int).map_values(|x: Value| f(x)->Ok_0));
        }
        proof {
            lemma_convert_all_ok(values@, f);
            assert(values@.subrange(0, i as int) =~= values@);
        }
        Ok(vec)
    }
}

impl Convert<Vec<String>> for Value {
    fn convert(interp: &mut Artichoke, value: Vec<String>) -> (r: Value)
        ensures
            r is Array,
            final(interp)@.valid_value(r),
            final(interp)@.strs_of(r) == Ok::<Seq<Seq<char>>, Error>(string_views(value@)),
            final(interp)@.arrays[r->Array_0 as int].len() == value@.len(),
    {
        let mut values: Vec<Value> = Vec::with_capacity(value.len());
        let mut i: usize = 0;
        while i < value.len()
            invariant
                i <= value@.len(),
                values@.len() == i,
                interp@.wf(),
                interp@.extends(old(interp)@),
                forall|j: int|
                    0 <= j < i ==> {
                        &&& interp@.valid_value(#[trigger] values@[j])
                        &&& interp@.str_of(values@[j]) == Ok::<Seq<char>, Error>(value@[j]@)
                    },
            decreases value.len() - i,
        {
            let ghost before = interp@;
            let item = Value::convert(interp, value[i].clone());
            proof {
                assert forall|j: int| 0 <= j < i implies interp@.valid_value(#[trigger] values@[j])
                    && interp@.str_of(values@[j]) == Ok::<Seq<char>, Error>(value@[j]@) by {
                    assert(before.valid_value(values@[j]));
                }
            }
            values.push(item);
            i += 1;
        }
        let ghost before = interp@;
        let r = Value::convert(interp, values);
        proof {
            let f = |x: Value| interp@.str_of(x);
            assert forall|j: int| 0 <= j < values@.len() implies (#[trigger] f(values@[j])) is Ok by {
                assert(before.valid_value(values@[j]));
            }
            lemma_convert_all_ok(values@, f);
            assert(values@.map_values(|x: Value| f(x)->Ok_0) =~= string_views(value@));
        }
        r
    }
}

impl TryConvert for Vec<String> {
    fn try_convert(interp: &Artichoke, value: Value) -> (r: Result<Vec<String>, Error>)
        ensures
            r matches Ok(v) ==> interp@.strs_of(value) == Ok::<Seq<Seq<char>>, Error>(
                string_views(v@),
            ),
            r matches Err(e) ==> interp@.strs_of(value) == Err::<Seq<Seq<char>>, Error>(e),
            !(value is Array) ==> r == Err::<Vec<String>, Error>(mismatch(value, Rust::Vec)),
    {
        let values = match <Vec<Value>>::try_convert(interp, value) {
            Ok(values) => values,
            Err(e) => return Err(e),
        };
        let ghost f = |x: Value| interp@.str_of(x);
        proof {
            if let Value::Array(id) = value {
                assert(interp@.valid_values(interp@.arrays[id as int]));
            }
        }
        let mut vec: Vec<String> = Vec::with_capacity(values.len());
        let mut i: usize = 0;
        while i < values.len()
            invariant
                i <= values@.len(),
                interp@.wf(),
                interp@.valid_values(values@),
                f == (|x: Value| interp@.str_of(x)),
                interp@.values_of(value) == Ok::<Seq<Value>, Error>(values@),
                forall|j: int| 0 <= j < i ==> (#[trigger] f(values@[j])) is Ok,
                vec@.len() == i,
                forall|j: int| 0 <= j < i ==> (#[trigger] vec@[j])@ == f(values@[j])->Ok_0,
            decreases values.len() - i,
        {
            match String::try_convert(interp, values[i]) {
                Ok(s) => {
                    assert(interp@.valid_value(values@[i as int]));
                    vec.push(s);
                },
                Err(e) => {
                    proof {
                        assert(first_failure(values@, f, i as int));
                        lemma_convert_all_err(values@, f, i as int);
                    }
                    return Err(e);
                },
            }
            i += 1;
        }
        proof {
            lemma_convert_all_ok(values@, f);
            assert(string_views(vec@) =~= values@.map_values(|x: Value| f(x)->Ok_0));
        }
        Ok(vec)
    }
}

/// Booleans converted into the runtime convert back to the same booleans:
/// where `after` and `r` are what converting `v` in `before` leaves and
/// returns, converting `r` back gives `v`.
pub proof fn lemma_bools_round_trip(
    before: ArtichokeView,
    after: ArtichokeView,
    r: Value,
    v: Seq<bool>,
)
    requires
        after == before.with_array(bool_values(v)),
        r is Array && r->Array_0 == before.arrays.len(),
    ensures
        after.bools_of(r) == Ok::<Seq<bool>, Error>(v),
{
    let items = bool_values(v);
    let f = |x: Value| bool_of(x);
    assert(after.values_of(r) == Ok::<Seq<Value>, Error>(items));
    assert forall|j: int| 0 <= j < items.len() implies (#[trigger] f(items[j])) is Ok by {}
    lemma_convert_all_ok(items, f);
    assert(items.map_values(|x: Value| f(x)->Ok_0) =~= v);
}

/// Optional booleans converted into the runtime convert back unchanged:
/// each `None` becomes `nil` and comes back as `None`, each `Some(b)` comes
/// back as `Some(b)`.
pub proof fn lemma_option_bools_round_trip(
    before: ArtichokeView,
    after: ArtichokeView,
    r: Value,
    v: Seq<Option<bool>>,
)
    requires
        after == before.with_array(option_bool_values(v)),
        r is Array && r->Array_0 == before.arrays.len(),
    ensures
        after.option_bools_of(r) == Ok::<Seq<Option<bool>>, Error>(v),
{
    let items = option_bool_values(v);
    let f = |x: Value| option_bool_of(x);
    assert(after.values_of(r) == Ok::<Seq<Value>, Error>(items));
    assert forall|j: int| 0 <= j < items.len() implies (#[trigger] f(items[j])) is Ok by {}
    lemma_convert_all_ok(items, f);
    assert(items.map_values(|x: Value| f(x)->Ok_0) =~= v);
}

} // verus!
