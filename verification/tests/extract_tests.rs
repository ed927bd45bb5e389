use ferio::{
    extract_holidays, extract_holidays_from_anchors, get_holidays_section_index, section_html_url,
    sections_url, Holiday, HolidayError, RawAnchor, Section, SectionsRoot,
};

fn section(line: &str, index: &str) -> Section {
    Section {
        toclevel: 1,
        level: "2".to_string(),
        line: line.to_string(),
        number: "1".to_string(),
        index: index.to_string(),
        fromtitle: "January_1".to_string(),
        byteoffset: 0,
        anchor: line.replace(' ', "_"),
    }
}

fn sections_root(sections: Vec<Section>) -> SectionsRoot {
    SectionsRoot {
        parse: ferio::sections_schema::Parse {
            title: "January 1".to_string(),
            pageid: 1,
            sections,
            showtoc: String::new(),
        },
    }
}

#[test]
fn section_index_found() {
    let root = sections_root(vec![
        section("Events", "1"),
        section("Holidays and observances", "42"),
        section("References", "43"),
    ]);
    assert_eq!(
        get_holidays_section_index("January_1", &root),
        Ok("42".to_string())
    );
}

#[test]
fn section_index_takes_first_match() {
    let root = sections_root(vec![
        section("Holidays and observances", "7"),
        section("Holidays and observances", "8"),
    ]);
    assert_eq!(
        get_holidays_section_index("January_1", &root),
        Ok("7".to_string())
    );
}

#[test]
fn section_index_missing_reports_title() {
    let root = sections_root(vec![section("Events", "1"), section("Births", "2")]);
    assert_eq!(
        get_holidays_section_index("January_1", &root),
        Err(HolidayError::NoHolidaysFound("January_1".to_string()))
    );
}

#[test]
fn section_label_match_is_exact() {
    let root = sections_root(vec![
        section("holidays and observances", "1"),
        section("Holidays and observances ", "2"),
        section("Holidays", "3"),
    ]);
    assert_eq!(
        get_holidays_section_index("March_5", &root),
        Err(HolidayError::NoHolidaysFound("March_5".to_string()))
    );
}

#[test]
fn extract_keeps_only_qualifying_anchor() {
    let html = "<ul>\
        <li><a href=\"/wiki/Example\">Example</a></li>\
        <li><a href=\"/wiki/Whatever\">feast day</a></li>\
        <li><a href=\"/wiki/Feast_day\">Feast</a></li>\
        <li><a href=\"https://other.example\">Other</a></li>\
        </ul>";
    let holidays = extract_holidays(html);
    assert_eq!(
        holidays,
        vec![Holiday {
            name: "Example".to_string(),
            wikipedia_url: "https://en.wikipedia.org/wiki/Example".to_string(),
        }]
    );
}

#[test]
fn extract_excludes_link_rot_target() {
    let html = "<ul><li><a href=\"/wiki/Wikipedia:Link_rot\">dead link</a></li>\
        <li><a href=\"/wiki/New_Year\">New Year</a></li></ul>";
    let holidays = extract_holidays(html);
    assert_eq!(holidays.len(), 1);
    assert_eq!(holidays[0].name, "New Year");
}

#[test]
fn extract_skips_anchor_that_is_not_first_child() {
    let html = "<ul>\
        <li><span>note</span><a href=\"/wiki/Second\">Second</a></li>\
        <li><a href=\"/wiki/First\">First</a></li>\
        </ul>";
    let holidays = extract_holidays(html);
    assert_eq!(
        holidays,
        vec![Holiday {
            name: "First".to_string(),
            wikipedia_url: "https://en.wikipedia.org/wiki/First".to_string(),
        }]
    );
}

#[test]
fn extract_concatenates_split_text_nodes() {
    let html = "<ul><li><a href=\"/wiki/New_Year\"><i>New</i> Year</a></li></ul>";
    let holidays = extract_holidays(html);
    assert_eq!(holidays.len(), 1);
    assert_eq!(holidays[0].name, "New Year");
}

#[test]
fn extract_preserves_document_order() {
    let html = "<ul>\
        <li><a href=\"/wiki/A\">A</a></li>\
        <li><a href=\"/wiki/B\">B</a></li>\
        <li><a href=\"/wiki/C\">C</a></li>\
        </ul>";
    let holidays = extract_holidays(html);
    let names: Vec<&str> = holidays.iter().map(|h| h.name.as_str()).collect();
    assert_eq!(names, vec!["A", "B", "C"]);
}

#[test]
fn extract_of_empty_section_is_empty_not_error() {
    assert_eq!(extract_holidays("<ul><li>plain text</li></ul>"), vec![]);
    assert_eq!(extract_holidays(""), vec![]);
}

#[test]
fn filter_applies_to_prepared_anchors() {
    let anchors = vec![
        RawAnchor {
            text: "Example".to_string(),
            inner_html: "Example".to_string(),
            href: Some("/wiki/Example".to_string()),
        },
        RawAnchor {
            text: "feast day".to_string(),
            inner_html: "feast day".to_string(),
            href: Some("/wiki/Whatever".to_string()),
        },
        RawAnchor {
            text: "no target".to_string(),
            inner_html: "no target".to_string(),
            href: None,
        },
        RawAnchor {
            text: "elsewhere".to_string(),
            inner_html: "elsewhere".to_string(),
            href: Some("https://other.example".to_string()),
        },
    ];
    let holidays = extract_holidays_from_anchors(&anchors);
    assert_eq!(
        holidays,
        vec![Holiday {
            name: "Example".to_string(),
            wikipedia_url: "https://en.wikipedia.org/wiki/Example".to_string(),
        }]
    );
}

#[test]
fn query_urls_are_exact() {
    assert_eq!(
        sections_url("January_1"),
        "https://en.wikipedia.org/w/api.php/?action=parse&format=json&prop=sections&page=January_1"
    );
    assert_eq!(
        section_html_url("January_1", "42"),
        "https://en.wikipedia.org/w/api.php/?action=parse&format=json&prop=text&disableeditsection=1&page=January_1&section=42"
    );
}
