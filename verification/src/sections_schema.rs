//! The shape of the remote source's sections listing, as decoded from its
//! JSON response. The embedding program decodes the response and hands a
//! value of this shape to the library.

use vstd::prelude::*;

verus! {

/// The decoded sections response.
#[derive(Debug, PartialEq, Eq)]
pub struct SectionsRoot {
    pub parse: Parse,
}

#[derive(Debug, PartialEq, Eq)]
pub struct Parse {
    pub title: String,
    pub pageid: i64,
    pub sections: Vec<Section>,
    pub showtoc: String,
}

/// One section of a page, with its display label (`line`) and the opaque
/// index the rendered-section endpoint expects.
#[derive(Debug, PartialEq, Eq)]
pub struct Section {
    pub toclevel: i64,
    pub level: String,
    pub line: String,
    pub number: String,
    pub index: String,
    pub fromtitle: String,
    pub byteoffset: i64,
    pub anchor: String,
}

} // verus!
