//! A typed marshaling boundary between an embedded, dynamically typed
//! scripting runtime and statically typed host code.
//!
//! The runtime heap is modelled as an arena owned by [`Artichoke`]; a
//! [`Value`] is a small handle into it. Conversions from host values into the
//! runtime are total ([`Convert`]), conversions back are partial
//! ([`TryConvert`]) and fail with an [`Error`] naming both domains. Host
//! state behind runtime objects lives in an arena of its own and is recovered
//! by slot, after a check of the object's class ([`MatchData::try_from_ruby`]).

pub mod array;
pub mod convert;
pub mod interpreter;
pub mod matchdata;
pub mod types;
pub mod value;

pub use convert::{Convert, Error, TryConvert};
pub use interpreter::{Artichoke, ArtichokeView, RObject, MATCH_DATA_CLASS, OBJECT_CLASS};
pub use matchdata::{ExtractionError, MatchData, Regex, Regexp};
pub use types::{Ruby, Rust};
pub use value::Value;
