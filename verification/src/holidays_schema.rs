//! The shape of the remote source's rendered-section response, as decoded
//! from its JSON response. The embedding program decodes the response and
//! hands a value of this shape to the library.

use vstd::prelude::*;

verus! {

/// The decoded rendered-section response.
#[derive(Debug, PartialEq, Eq)]
pub struct HolidayRoot {
    pub parse: Parse,
}

#[derive(Debug, PartialEq, Eq)]
pub struct Parse {
    pub title: String,
    pub pageid: i64,
    pub text: Text,
}

/// The rendered HTML fragment of one section.
#[derive(Debug, PartialEq, Eq)]
pub struct Text {
    pub field: String,
}

} // verus!
