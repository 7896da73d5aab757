use vstd::prelude::*;

verus! {

/// Why a coordinate structure could not be decoded.
#[derive(Debug, Clone, PartialEq, Eq)]
pub enum GeoError {
    /// A position array whose length is neither two nor three.
    MalformedPosition { found_length: usize },
    /// A geometry whose `type` tag names none of the seven shapes.
    UnknownGeometryType { tag: String },
    /// A scalar where an array was expected, an array where a scalar was
    /// expected, or a missing member.
    MalformedStructure,
}

} // verus!
