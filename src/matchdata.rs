use vstd::prelude::*;

use crate::interpreter::{Artichoke, ArtichokeView, MATCH_DATA_CLASS};
use crate::value::Value;

pub mod names;

verus! {

/// A compiled pattern, as the runtime's pattern engine hands it over: the
/// names of its capture groups in the order in which the groups are defined.
/// A group without a name has `None` in its place. Compiling is the engine's
/// work: the library takes these names as given and does not derive them from
/// any pattern text.
#[derive(Debug)]
pub struct Regex {
    pub capture_names: Vec<Option<String>>,
}

/// The host state behind a runtime `Regexp`: its source text and, where the
/// pattern compiled, the compiled form. Nothing here ties `regex` to
/// `pattern`; whoever builds the state pairs them.
#[derive(Debug)]
pub struct Regexp {
    pub pattern: String,
    pub regex: Option<Regex>,
}

/// The host state behind a runtime `MatchData`: the pattern that matched.
#[derive(Debug)]
pub struct MatchData {
    pub regexp: Regexp,
}

/// The view of one optional capture-group name.
pub open spec fn name_view(name: Option<String>) -> Option<Seq<char>> {
    match name {
        Some(s) => Some(s@),
        None => None,
    }
}

impl Regex {
    /// The capture-group names, in definition order.
    pub open spec fn names_view(self) -> Seq<Option<Seq<char>>> {
        self.capture_names@.map_values(|n: Option<String>| name_view(n))
    }
}

/// Why host state could not be recovered from a runtime value.
#[derive(Debug, Clone, Copy, PartialEq, Eq, Hash, Structural)]
pub enum ExtractionError {
    /// The value is not an instance of the class whose state was asked for.
    WrongClass,
    /// The value is an instance of that class but carries no state.
    MissingBacking,
}

impl ArtichokeView {
    /// Where the `MatchData` state behind `v` lives: the class is checked
    /// first, and only then the attached slot is read.
    pub open spec fn match_data_slot(self, v: Value) -> Result<usize, ExtractionError> {
        if self.class_of(v) != Some(MATCH_DATA_CLASS) {
            Err(ExtractionError::WrongClass)
        } else {
            match self.objects[ArtichokeView::object_slot(v)->Some_0 as int].backing {
                Some(k) => Ok(k),
                None => Err(ExtractionError::MissingBacking),
            }
        }
    }
}

impl MatchData {
    /// Recovers the `MatchData` state carried by `value`, checking its class
    /// before its attached slot is read.
    pub fn try_from_ruby<'a>(interp: &'a Artichoke, value: &Value) -> (r: Result<
        &'a MatchData,
        ExtractionError,
    >)
        requires
            interp@.wf(),
            interp@.valid_value(*value),
        ensures
            r is Ok <==> interp@.match_data_slot(*value) is Ok,
            r matches Ok(d) ==> *d == interp@.match_data[interp@.match_data_slot(*value)->Ok_0 as int],
            r matches Err(e) ==> interp@.match_data_slot(*value) == Err::<usize, ExtractionError>(e),
    {
        let slot = match *value {
            Value::Object(i) => i,
            Value::Data(i) => i,
            _ => return Err(ExtractionError::WrongClass),
        };
        let object = interp.object_at(slot);
        if object.class != MATCH_DATA_CLASS {
            return Err(ExtractionError::WrongClass);
        }
        match object.backing {
            Some(k) => {
                proof {
                    assert(interp@.objects[slot as int].class < interp@.classes.len());
                }
                Ok(interp.match_data_at(k))
            },
            None => Err(ExtractionError::MissingBacking),
        }
    }
}

} // verus!
