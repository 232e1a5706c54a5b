use vstd::prelude::*;

verus! {

/// Tags for the types of values on the runtime side of the boundary.
#[derive(Debug, Clone, Copy, PartialEq, Eq, Hash, Structural)]
pub enum Ruby {
    Array,
    Bool,
    Data,
    Fixnum,
    Nil,
    Object,
    String,
}

/// Tags for the types of values on the host side of the boundary.
#[derive(Debug, Clone, Copy, PartialEq, Eq, Hash, Structural)]
pub enum Rust {
    Bool,
    SignedInt,
    String,
    Vec,
}

} // verus!
