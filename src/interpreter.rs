use vstd::prelude::*;

use crate::matchdata::MatchData;
use crate::value::Value;

verus! {

/// The class id of `Object`, defined by every interpreter.
pub const OBJECT_CLASS: usize = 0;

/// The class id of `MatchData`, defined by every interpreter.
pub const MATCH_DATA_CLASS: usize = 1;

/// A heap object: its class and, for a native-backed object, the slot of its
/// host state in the interpreter's arena of that state.
#[derive(Debug, Clone, Copy, PartialEq, Eq, Structural)]
pub struct RObject {
    pub class: usize,
    pub backing: Option<usize>,
}

/// One running interpreter, the sole owner of every heap value.
///
/// Each kind of heap value lives in an arena that only grows, so a handle
/// once valid stays valid for the life of the interpreter.
pub struct Artichoke {
    classes: Vec<String>,
    strings: Vec<String>,
    arrays: Vec<Vec<Value>>,
    objects: Vec<RObject>,
    match_data: Vec<MatchData>,
}

/// The contents of an interpreter's arenas.
pub ghost struct ArtichokeView {
    pub classes: Seq<Seq<char>>,
    pub strings: Seq<Seq<char>>,
    pub arrays: Seq<Seq<Value>>,
    pub objects: Seq<RObject>,
    pub match_data: Seq<MatchData>,
}

impl ArtichokeView {
    /// The handle refers to a slot that exists in this interpreter.
    pub open spec fn valid_value(self, v: Value) -> bool {
        match v {
            Value::String(i) => i < self.strings.len(),
            Value::Array(i) => i < self.arrays.len(),
            Value::Object(i) => i < self.objects.len(),
            Value::Data(i) => i < self.objects.len(),
            _ => true,
        }
    }

    /// Every handle in the sequence is valid.
    pub open spec fn valid_values(self, vs: Seq<Value>) -> bool {
        forall|j: int| 0 <= j < vs.len() ==> #[trigger] self.valid_value(vs[j])
    }

    /// The object refers only to a class and a state slot that exist.
    pub open spec fn object_wf(self, o: RObject) -> bool {
        &&& o.class < self.classes.len()
        &&& o.backing matches Some(k) ==> k < self.match_data.len()
    }

    /// The arenas refer only to slots that exist, and the built-in classes
    /// are defined.
    pub open spec fn wf(self) -> bool {
        &&& self.classes.len() >= 2
        &&& forall|i: int|
            0 <= i < self.arrays.len() ==> #[trigger] self.valid_values(self.arrays[i])
        &&& forall|i: int| 0 <= i < self.objects.len() ==> self.object_wf(#[trigger] self.objects[i])
    }

    /// `self` holds everything that `other` held, in the same slots.
    pub open spec fn extends(self, other: ArtichokeView) -> bool {
        &&& other.classes.is_prefix_of(self.classes)
        &&& other.strings.is_prefix_of(self.strings)
        &&& other.arrays.is_prefix_of(self.arrays)
        &&& other.objects.is_prefix_of(self.objects)
        &&& other.match_data.is_prefix_of(self.match_data)
    }

    /// The class of the heap object that a handle refers to, if it refers to
    /// one.
    pub open spec fn class_of(self, v: Value) -> Option<usize> {
        match v {
            Value::Object(i) => Some(self.objects[i as int].class),
            Value::Data(i) => Some(self.objects[i as int].class),
            _ => None,
        }
    }

    /// The object slot that a handle refers to, if it refers to a heap object.
    pub open spec fn object_slot(v: Value) -> Option<usize> {
        match v {
            Value::Object(i) => Some(i),
            Value::Data(i) => Some(i),
            _ => None,
        }
    }

    /// The string that a handle refers to, if it is a string.
    pub open spec fn string_of(self, v: Value) -> Option<Seq<char>> {
        match v {
            Value::String(i) => Some(self.strings[i as int]),
            _ => None,
        }
    }
}

/// Handles valid in an interpreter stay valid in every extension of it.
pub proof fn lemma_extends_keeps_valid(a: ArtichokeView, b: ArtichokeView, vs: Seq<Value>)
    requires
        b.extends(a),
        a.valid_values(vs),
    ensures
        b.valid_values(vs),
{
    assert forall|j: int| 0 <= j < vs.len() implies #[trigger] b.valid_value(vs[j]) by {
        assert(a.valid_value(vs[j]));
    }
}

/// An interpreter that only grew from a well-formed one is well formed, where
/// the arrays and objects that it added refer only to slots that exist.
proof fn lemma_grown_wf(a: ArtichokeView, b: ArtichokeView)
    requires
        a.wf(),
        b.extends(a),
        forall|i: int|
            a.arrays.len() <= i < b.arrays.len() ==> #[trigger] b.valid_values(b.arrays[i]),
        forall|i: int|
            a.objects.len() <= i < b.objects.len() ==> b.object_wf(#[trigger] b.objects[i]),
    ensures
        b.wf(),
{
    assert forall|i: int| 0 <= i < b.arrays.len() implies #[trigger] b.valid_values(b.arrays[i]) by {
        if i < a.arrays.len() {
            assert(a.valid_values(a.arrays[i]));
            lemma_extends_keeps_valid(a, b, b.arrays[i]);
        }
    }
    assert forall|i: int| 0 <= i < b.objects.len() implies b.object_wf(#[trigger] b.objects[i]) by {
        if i < a.objects.len() {
            assert(a.object_wf(a.objects[i]));
        }
    }
}

impl View for Artichoke {
    type V = ArtichokeView;

    closed spec fn view(&self) -> ArtichokeView {
        ArtichokeView {
            classes: self.classes@.map_values(|s: String| s@),
            strings: self.strings@.map_values(|s: String| s@),
            arrays: self.arrays@.map_values(|a: Vec<Value>| a@),
            objects: self.objects@,
            match_data: self.match_data@,
        }
    }
}

impl Artichoke {
    /// A fresh interpreter, with `Object` and `MatchData` defined and no
    /// heap values.
    pub fn new() -> (r: Artichoke)
        ensures
            r@.wf(),
            r@.classes == seq!["Object"@, "MatchData"@],
            r@.strings.len() == 0,
            r@.arrays.len() == 0,
            r@.objects.len() == 0,
            r@.match_data.len() == 0,
    {
        let mut classes: Vec<String> = Vec::new();
        classes.push(String::from_str("Object"));
        classes.push(String::from_str("MatchData"));
        let r = Artichoke {
            classes,
            strings: Vec::new(),
            arrays: Vec::new(),
            objects: Vec::new(),
            match_data: Vec::new(),
        };
        assert(r@.classes =~= seq!["Object"@, "MatchData"@]);
        r
    }

    /// Defines a new class named `name` and returns its id.
    pub fn define_class(&mut self, name: &str) -> (r: usize)
        requires
            old(self)@.wf(),
        ensures
            final(self)@.wf(),
            r == old(self)@.classes.len(),
            final(self)@ == (ArtichokeView { classes: old(self)@.classes.push(name@), ..old(self)@ }),
    {
        self.classes.push(name.to_owned());
        let ghost v = self@;
        assert(v.classes =~= old(self)@.classes.push(name@));
        assert(v =~= (ArtichokeView { classes: old(self)@.classes.push(name@), ..old(self)@ }));
        proof {
            lemma_grown_wf(old(self)@, v);
        }
        self.classes.len() - 1
    }

    /// Allocates a runtime string holding `s`.
    pub fn new_string(&mut self, s: String) -> (r: Value)
        requires
            old(self)@.wf(),
        ensures
            final(self)@.wf(),
            r is String && r->String_0 == old(self)@.strings.len(),
            final(self)@ == (ArtichokeView { strings: old(self)@.strings.push(s@), ..old(self)@ }),
    {
        let ghost s_view = s@;
        self.strings.push(s);
        let ghost v = self@;
        assert(v.strings =~= old(self)@.strings.push(s_view));
        assert(v =~= (ArtichokeView { strings: old(self)@.strings.push(s_view), ..old(self)@ }));
        proof {
            lemma_grown_wf(old(self)@, v);
        }
        Value::String(self.strings.len() - 1)
    }

    /// Allocates a runtime array holding `items`, in order.
    pub fn new_array(&mut self, items: Vec<Value>) -> (r: Value)
        requires
            old(self)@.wf(),
            old(self)@.valid_values(items@),
        ensures
            final(self)@.wf(),
            r is Array && r->Array_0 == old(self)@.arrays.len(),
            final(self)@ == (ArtichokeView { arrays: old(self)@.arrays.push(items@), ..old(self)@ }),
    {
        let ghost items_view = items@;
        self.arrays.push(items);
        let ghost v = self@;
        assert(v.arrays =~= old(self)@.arrays.push(items_view));
        assert(v =~= (ArtichokeView { arrays: old(self)@.arrays.push(items_view), ..old(self)@ }));
        proof {
            lemma_extends_keeps_valid(old(self)@, v, items_view);
            lemma_grown_wf(old(self)@, v);
        }
        Value::Array(self.arrays.len() - 1)
    }

    /// Allocates an instance of the class `class` that carries no native
    /// state.
    pub fn new_object(&mut self, class: usize) -> (r: Value)
        requires
            old(self)@.wf(),
            class < old(self)@.classes.len(),
        ensures
            final(self)@.wf(),
            r is Object && r->Object_0 == old(self)@.objects.len(),
            final(self)@ == (ArtichokeView {
                objects: old(self)@.objects.push(RObject { class, backing: None }),
                ..old(self)@
            }),
    {
        self.objects.push(RObject { class, backing: None });
        let ghost v = self@;
        assert(v =~= (ArtichokeView {
            objects: old(self)@.objects.push(RObject { class, backing: None }),
            ..old(self)@
        }));
        proof {
            lemma_grown_wf(old(self)@, v);
        }
        Value::Object(self.objects.len() - 1)
    }

    /// Allocates a `MatchData` instance backed by the host state `data`.
    pub fn new_match_data(&mut self, data: MatchData) -> (r: Value)
        requires
            old(self)@.wf(),
        ensures
            final(self)@.wf(),
            r is Data && r->Data_0 == old(self)@.objects.len(),
            final(self)@ == (ArtichokeView {
                objects: old(self)@.objects.push(
                    RObject { class: MATCH_DATA_CLASS, backing: Some(old(self)@.match_data.len() as usize) },
                ),
                match_data: old(self)@.match_data.push(data),
                ..old(self)@
            }),
    {
        let slot = self.match_data.len();
        self.match_data.push(data);
        self.objects.push(RObject { class: MATCH_DATA_CLASS, backing: Some(slot) });
        let ghost v = self@;
        assert(v =~= (ArtichokeView {
            objects: old(self)@.objects.push(
                RObject { class: MATCH_DATA_CLASS, backing: Some(old(self)@.match_data.len() as usize) },
            ),
            match_data: old(self)@.match_data.push(data),
            ..old(self)@
        }));
        proof {
            lemma_grown_wf(old(self)@, v);
        }
        Value::Data(self.objects.len() - 1)
    }

    /// Whether the handle refers to a slot that exists in this interpreter.
    pub fn valid_handle(&self, v: Value) -> (r: bool)
        ensures
            r == self@.valid_value(v),
    {
        match v {
            Value::String(i) => i < self.strings.len(),
            Value::Array(i) => i < self.arrays.len(),
            Value::Object(i) => i < self.objects.len(),
            Value::Data(i) => i < self.objects.len(),
            _ => true,
        }
    }

    /// The elements of the array in slot `id`.
    pub fn array_items(&self, id: usize) -> (r: &Vec<Value>)
        requires
            id < self@.arrays.len(),
        ensures
            r@ == self@.arrays[id as int],
    {
        &self.arrays[id]
    }

    /// The string in slot `id`.
    pub fn string_at(&self, id: usize) -> (r: &String)
        requires
            id < self@.strings.len(),
        ensures
            r@ == self@.strings[id as int],
    {
        &self.strings[id]
    }

    /// The heap object in slot `id`.
    pub fn object_at(&self, id: usize) -> (r: RObject)
        requires
            id < self@.objects.len(),
        ensures
            r == self@.objects[id as int],
    {
        self.objects[id]
    }

    /// The native state in slot `slot` of the `MatchData` arena.
    pub fn match_data_at(&self, slot: usize) -> (r: &MatchData)
        requires
            slot < self@.match_data.len(),
        ensures
            *r == self@.match_data[slot as int],
    {
        &self.match_data[slot]
    }
}

} // verus!
