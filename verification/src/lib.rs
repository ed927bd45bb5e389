//! Resolve a calendar date to the set of named holidays and observances
//! celebrated on it, as listed by a public encyclopedia's per-day article.
//!
//! The library covers the whole resolution pipeline: rendering a date as the
//! canonical page title, parsing such a title back into a date, locating the
//! holidays section in a page's section listing, extracting holiday records
//! from the section's rendered markup, and deriving a greeting line from a
//! holiday's name. The two HTTP round-trips themselves are left to the
//! embedding program, which feeds their decoded responses into this crate.

pub mod date;
pub mod fetch;
pub mod holiday;
pub mod holidays_schema;
pub mod sections_schema;
pub mod text;

pub use date::get_month;
pub use date::month_name;
pub use date::parse_month;
pub use date::render_title;
pub use date::HolidayDate;
pub use date::HolidayDateError;
pub use fetch::extract_holidays;
pub use fetch::extract_holidays_from_anchors;
pub use fetch::get_holidays_section_index;
pub use fetch::section_html_url;
pub use fetch::sections_url;
pub use fetch::HolidayError;
pub use fetch::RawAnchor;
pub use holiday::Holiday;
pub use holidays_schema::HolidayRoot;
pub use sections_schema::Section;
pub use sections_schema::SectionsRoot;
