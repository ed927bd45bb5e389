//! Holiday records and the greeting line derived from a holiday's name.

use crate::text::contains_chars;
use crate::text::contains_seq;
use vstd::prelude::*;
use vstd::string::StringExecFns;

verus! {

/// One extracted holiday: the visible text of its reference link and the
/// absolute URL the link points at.
#[derive(Debug, PartialEq, Eq)]
pub struct Holiday {
    pub name: String,
    pub wikipedia_url: String,
}

/// The mathematical content of a `Holiday`: its two strings as sequences.
pub ghost struct HolidayView {
    pub name: Seq<char>,
    pub wikipedia_url: Seq<char>,
}

impl View for Holiday {
    type V = HolidayView;

    open spec fn view(&self) -> HolidayView {
        HolidayView { name: self.name@, wikipedia_url: self.wikipedia_url@ }
    }
}

/// What `str::to_lowercase` returns: a function of the characters alone.
pub uninterp spec fn lower_of(s: Seq<char>) -> Seq<char>;

/// Relies on `str::to_lowercase`: the lowercase equivalent of a string,
/// determined by its characters alone.
#[verifier::external_body]
fn to_lowercase_str(s: &str) -> (r: String)
    ensures
        r@ == lower_of(s@),
{
    s.to_lowercase()
}

/// The greeting derived from a holiday name: `"Happy "` before the name, and
/// `" Day"` after it unless the lowercased name already mentions a day or a
/// month.
pub open spec fn spec_greeting(name: Seq<char>) -> Seq<char> {
    if contains_seq(lower_of(name), "day"@) || contains_seq(lower_of(name), "month"@) {
        "Happy "@ + name
    } else {
        "Happy "@ + name + " Day"@
    }
}

impl Holiday {
    /// The human-readable greeting line for this holiday.
    pub fn get_greeting(&self) -> (r: String)
        ensures
            r@ == spec_greeting(self.name@),
    {
        let lower = to_lowercase_str(self.name.as_str());
        let wordy = contains_chars(lower.as_str(), "day") || contains_chars(
            lower.as_str(),
            "month",
        );
        let mut r = "Happy ".to_owned();
        r.append(self.name.as_str());
        if !wordy {
            r.append(" Day");
        }
        r
    }
}

} // verus!
