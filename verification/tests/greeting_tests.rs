use ferio::Holiday;

fn holiday(name: &str) -> Holiday {
    Holiday { name: name.to_string(), wikipedia_url: String::new() }
}

#[test]
fn greeting_appends_day_when_missing() {
    assert_eq!(holiday("Christmas").get_greeting(), "Happy Christmas Day");
    assert_eq!(holiday("Thanksgiving").get_greeting(), "Happy Thanksgiving Day");
    assert_eq!(holiday("Halloween").get_greeting(), "Happy Halloween Day");
}

#[test]
fn greeting_keeps_name_that_mentions_day() {
    assert_eq!(holiday("Earth Day").get_greeting(), "Happy Earth Day");
    assert_eq!(holiday("Pi Day").get_greeting(), "Happy Pi Day");
}

#[test]
fn greeting_keeps_name_that_mentions_month() {
    assert_eq!(
        holiday("Black History Month").get_greeting(),
        "Happy Black History Month"
    );
}

#[test]
fn greeting_matches_case_insensitively_but_keeps_the_name() {
    // the substring check runs on the lowercased name; the greeting keeps the
    // original spelling
    assert_eq!(holiday("May DAY").get_greeting(), "Happy May DAY");
    assert_eq!(holiday("BirthDAY").get_greeting(), "Happy BirthDAY");
}

#[test]
fn greeting_of_embedded_words() {
    // "day"/"month" count wherever they occur inside the name
    assert_eq!(holiday("Midday Feast").get_greeting(), "Happy Midday Feast");
}
