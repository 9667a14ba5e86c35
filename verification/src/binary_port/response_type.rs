//! The type of the payload carried by a binary response.
use vstd::prelude::*;

verus! {

/// The type of a response payload, identified by the tag byte that the header carries.
#[derive(Debug, Clone, Copy, PartialEq, Eq, Structural)]
pub struct ResponseType {
    /// The tag byte of the payload type.
    pub tag: u8,
}

impl ResponseType {
    /// Creates the payload type with the given tag byte.
    pub fn from_tag(tag: u8) -> (r: Self)
        ensures
            r.tag == tag,
    {
        ResponseType { tag }
    }
}

} // verus!
