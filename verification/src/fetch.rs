//! The extraction pipeline: locate the holidays section in a page's section
//! listing, and turn the section's rendered markup into holiday records.
//!
//! The two HTTP round-trips live in the embedding program; it decodes each
//! response and hands the decoded value to the functions here.

use crate::holiday::{Holiday, HolidayView};
use crate::sections_schema::{Section, SectionsRoot};
use crate::text::{is_prefix_of, starts_with_chars, str_eq_chars};
use vstd::prelude::*;
use vstd::string::StrSliceExecFns;
use vstd::string::StringExecFns;

verus! {

/// How a whole lookup can fail: a remote call did not complete or its
/// response could not be decoded, or the page has no section labeled exactly
/// `"Holidays and observances"` (the variant carries the page title).
#[derive(Debug, PartialEq, Eq)]
pub enum HolidayError {
    RemoteUnavailable,
    NoHolidaysFound(String),
}

/// The exact display label of the section the pipeline looks for.
pub open spec fn holidays_label() -> Seq<char> {
    "Holidays and observances"@
}

/// The index of the first section labeled `"Holidays and observances"`, in
/// the listing's own order; `None` when no section matches exactly.
pub open spec fn spec_section_index(ss: Seq<Section>) -> Option<Seq<char>>
    decreases ss.len(),
{
    if ss.len() == 0 {
        None
    } else if ss[0].line@ == holidays_label() {
        Some(ss[0].index@)
    } else {
        spec_section_index(ss.drop_first())
    }
}

/// Scan a decoded sections listing for the holidays section and hand back its
/// opaque index; fail with `NoHolidaysFound` carrying `title` when no section
/// is labeled exactly `"Holidays and observances"`.
pub fn get_holidays_section_index(title: &str, root: &SectionsRoot) -> (r: Result<
    String,
    HolidayError,
>)
    ensures
        match r {
            Ok(idx) => spec_section_index(root.parse.sections@) == Some(idx@),
            Err(e) => {
                &&& spec_section_index(root.parse.sections@) is None
                &&& e matches HolidayError::NoHolidaysFound(t) && t@ == title@
            },
        },
{
    let sections = &root.parse.sections;
    let ghost ss = sections@;
    let n = sections.len();
    let mut i: usize = 0;
    proof {
        assert(ss.skip(0) =~= ss);
    }
    while i < n
        invariant
            n == ss.len(),
            0 <= i <= n,
            sections@ == ss,
            ss == root.parse.sections@,
            spec_section_index(ss) == spec_section_index(ss.skip(i as int)),
        decreases n - i,
    {
        proof {
            assert(ss.skip(i as int)[0] == ss[i as int]);
            assert(ss.skip(i as int).drop_first() =~= ss.skip(i + 1));
        }
        if str_eq_chars(sections[i].line.as_str(), "Holidays and observances") {
            return Ok(sections[i].index.clone());
        }
        i = i + 1;
    }
    proof {
        assert(ss.skip(n as int) =~= Seq::<Section>::empty());
    }
    Err(HolidayError::NoHolidaysFound(title.to_owned()))
}

/// One anchor element as the selection step hands it over: its concatenated
/// text nodes, its inner HTML, and its link target, if any.
#[derive(Debug, PartialEq, Eq)]
pub struct RawAnchor {
    pub text: String,
    pub inner_html: String,
    pub href: Option<String>,
}

/// The mathematical content of a `RawAnchor`.
pub ghost struct AnchorView {
    pub text: Seq<char>,
    pub inner_html: Seq<char>,
    pub href: Option<Seq<char>>,
}

impl View for RawAnchor {
    type V = AnchorView;

    open spec fn view(&self) -> AnchorView {
        AnchorView {
            text: self.text@,
            inner_html: self.inner_html@,
            href: match self.href {
                Some(h) => Some(h@),
                None => None,
            },
        }
    }
}

/// What scraper's selection returns on a markup fragment: the anchors that
/// are the first child of a list item, in document order — a function of the
/// markup text alone.
pub uninterp spec fn anchors_of(html: Seq<char>) -> Seq<AnchorView>;

/// Relies on scraper's `Html::parse_document` and the CSS selector
/// `li a:nth-child(1)`: parsing the fragment and selecting yields, in
/// document order, each anchor that is the first child of a list item; for
/// each one this hands over its concatenated text nodes (`ElementRef::text`),
/// its inner HTML (`ElementRef::inner_html`), and its `href` attribute
/// (`ElementRef::attr`).
#[verifier::external_body]
fn select_li_first_anchors(html: &str) -> (r: Vec<RawAnchor>)
    ensures
        r@.map_values(|a: RawAnchor| a@) == anchors_of(html@),
{
    let document = scraper::Html::parse_document(html);
    let selector = scraper::Selector::parse("li a:nth-child(1)").unwrap();
    document
        .select(&selector)
        .map(|e| RawAnchor {
            text: e.text().collect::<String>(),
            inner_html: e.inner_html(),
            href: e.attr("href").map(|h| h.to_string()),
        })
        .collect()
}

/// The base origin that link targets are made absolute against.
pub open spec fn base_origin() -> Seq<char> {
    "https://en.wikipedia.org"@
}

/// The filter over selected anchors: keep an anchor exactly when it has a
/// link target that is an internal wiki link, and neither its visible text
/// nor its target is one of the known structural artifacts.
pub open spec fn anchor_selected(a: AnchorView) -> bool {
    match a.href {
        Some(h) => is_prefix_of("/wiki/"@, h) && a.inner_html != "feast day"@ && h
            != "/wiki/Feast_day"@ && h != "/wiki/Wikipedia:Link_rot"@,
        None => false,
    }
}

/// The holiday record built from a surviving anchor: the anchor's text as the
/// name, and the base origin before the raw link target as the URL (an
/// anchor without a target defensively yields an empty URL).
pub open spec fn holiday_of_anchor(a: AnchorView) -> HolidayView {
    HolidayView {
        name: a.text,
        wikipedia_url: match a.href {
            Some(h) => base_origin() + h,
            None => Seq::empty(),
        },
    }
}

/// The holiday records of a selected anchor sequence, in order: one per
/// anchor the filter keeps.
pub open spec fn spec_holidays(anchors: Seq<AnchorView>) -> Seq<HolidayView>
    decreases anchors.len(),
{
    if anchors.len() == 0 {
        Seq::empty()
    } else {
        spec_holidays(anchors.drop_last()) + (if anchor_selected(anchors.last()) {
            seq![holiday_of_anchor(anchors.last())]
        } else {
            Seq::empty()
        })
    }
}

/// Filter the selected anchors and map each survivor to a holiday record,
/// preserving document order.
pub fn extract_holidays_from_anchors(anchors: &Vec<RawAnchor>) -> (r: Vec<Holiday>)
    ensures
        r@.map_values(|h: Holiday| h@) == spec_holidays(
            anchors@.map_values(|a: RawAnchor| a@),
        ),
{
    let ghost av = anchors@.map_values(|a: RawAnchor| a@);
    let n = anchors.len();
    let mut out: Vec<Holiday> = Vec::new();
    let mut i: usize = 0;
    while i < n
        invariant
            n == anchors@.len(),
            av == anchors@.map_values(|a: RawAnchor| a@),
            0 <= i <= n,
            out@.map_values(|h: Holiday| h@) == spec_holidays(av.take(i as int)),
        decreases n - i,
    {
        let a = &anchors[i];
        proof {
            assert(av.take(i + 1).drop_last() =~= av.take(i as int));
            assert(av.take(i + 1).last() == av[i as int]);
            assert(av[i as int] == anchors@[i as int]@);
        }
        let selected = match &a.href {
            Some(h) => starts_with_chars(h.as_str(), "/wiki/") && !str_eq_chars(
                a.inner_html.as_str(),
                "feast day",
            ) && !str_eq_chars(h.as_str(), "/wiki/Feast_day") && !str_eq_chars(
                h.as_str(),
                "/wiki/Wikipedia:Link_rot",
            ),
            None => false,
        };
        if selected {
            let url = match &a.href {
                Some(h) => {
                    let mut u = "https://en.wikipedia.org".to_owned();
                    u.append(h.as_str());
                    u
                },
                None => String::new(),
            };
            let h = Holiday { name: a.text.clone(), wikipedia_url: url };
            out.push(h);
            proof {
                assert(out@.map_values(|h: Holiday| h@) =~= spec_holidays(av.take(i + 1)));
            }
        } else {
            proof {
                assert(out@.map_values(|h: Holiday| h@) =~= spec_holidays(av.take(i + 1)));
            }
        }
        i = i + 1;
    }
    proof {
        assert(av.take(n as int) =~= av);
    }
    out
}

/// Parse a rendered section fragment and extract its holiday records: select
/// the anchors that are the first child of a list item, filter them, and map
/// each survivor to a record, in document order. An empty result is a valid
/// outcome, not an error.
pub fn extract_holidays(html: &str) -> (r: Vec<Holiday>)
    ensures
        r@.map_values(|h: Holiday| h@) == spec_holidays(anchors_of(html@)),
{
    let anchors = select_li_first_anchors(html);
    extract_holidays_from_anchors(&anchors)
}

/// The sections-listing query URL for a page title.
pub open spec fn spec_sections_url(title: Seq<char>) -> Seq<char> {
    "https://en.wikipedia.org/w/api.php/?action=parse&format=json&prop=sections&page="@ + title
}

/// Build the URL of the structured-sections endpoint for a page title.
pub fn sections_url(title: &str) -> (r: String)
    ensures
        r@ == spec_sections_url(title@),
{
    let mut s =
        "https://en.wikipedia.org/w/api.php/?action=parse&format=json&prop=sections&page=".to_owned();
    s.append(title);
    s
}

/// The rendered-section query URL for a page title and a section index, with
/// edit-section markers suppressed.
pub open spec fn spec_section_html_url(title: Seq<char>, index: Seq<char>) -> Seq<char> {
    "https://en.wikipedia.org/w/api.php/?action=parse&format=json&prop=text&disableeditsection=1&page="@
        + title + "&section="@ + index
}

/// Build the URL of the rendered-section endpoint for a title and an index.
pub fn section_html_url(title: &str, index: &str) -> (r: String)
    ensures
        r@ == spec_section_html_url(title@, index@),
{
    let mut s =
        "https://en.wikipedia.org/w/api.php/?action=parse&format=json&prop=text&disableeditsection=1&page=".to_owned();
    s.append(title);
    s.append("&section=");
    s.append(index);
    proof {
        assert(s@ =~= spec_section_html_url(title@, index@));
    }
    s
}

} // verus!
