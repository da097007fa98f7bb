use halres_downloader::{
    extract_title_and_description, resource_from_fields, resource_from_page, Date, Resource,
};

fn day(year: i32, month: u32, d: u32) -> Date {
    Date::new(year, month, d).unwrap()
}

#[test]
fn single_page_scenario() {
    let markup = "<html><head><title>A</title><meta name=\"description\" content=\"desc\"></head></html>";
    let r = resource_from_page("http://a.test".to_string(), markup, day(2024, 1, 1));
    assert_eq!(
        r,
        Resource {
            url: "http://a.test".to_string(),
            title: "A".to_string(),
            description: "desc".to_string(),
            timestamp: day(2024, 1, 1),
        }
    );
}

#[test]
fn missing_fields_become_empty() {
    let r = resource_from_page(
        "http://b.test/".to_string(),
        "<html><head></head><body><p>nothing here</p></body></html>",
        day(2023, 12, 31),
    );
    assert_eq!(r.title, "");
    assert_eq!(r.description, "");
    assert_eq!(r.url, "http://b.test/");
    assert_eq!(r.timestamp, day(2023, 12, 31));
}

#[test]
fn empty_body_gives_empty_fields() {
    let r = resource_from_page("http://c.test/".to_string(), "", day(2020, 2, 29));
    assert_eq!(r.title, "");
    assert_eq!(r.description, "");
}

#[test]
fn extraction_finds_first_title_and_description() {
    let markup = "<html><head><title>First</title><title>Second</title>\
        <meta name=\"keywords\" content=\"k\">\
        <meta name=\"description\" content=\"one\">\
        <meta name=\"description\" content=\"two\"></head></html>";
    let (title, description) = extract_title_and_description(markup);
    assert_eq!(title, Some("First".to_string()));
    assert_eq!(description, Some("one".to_string()));
}

#[test]
fn description_needs_a_meta_element() {
    let markup = "<html><body><div name=\"description\" content=\"not meta\"></div></body></html>";
    let (title, description) = extract_title_and_description(markup);
    assert_eq!(title, None);
    assert_eq!(description, None);
}

#[test]
fn description_without_content_is_absent() {
    let markup = "<html><head><title>T</title><meta name=\"description\"></head></html>";
    let (title, description) = extract_title_and_description(markup);
    assert_eq!(title, Some("T".to_string()));
    assert_eq!(description, None);
    let r = resource_from_page("http://d.test/".to_string(), markup, day(2024, 5, 6));
    assert_eq!(r.title, "T");
    assert_eq!(r.description, "");
}

#[test]
fn title_text_joins_nested_text() {
    let markup = "<html><head><title>Hello  World</title></head></html>";
    let (title, _) = extract_title_and_description(markup);
    assert_eq!(title, Some("Hello  World".to_string()));
}

#[test]
fn fields_default_to_empty() {
    let r = resource_from_fields("http://e.test/".to_string(), None, None, day(2000, 1, 1));
    assert_eq!(r.title, "");
    assert_eq!(r.description, "");
    let r = resource_from_fields(
        "http://e.test/".to_string(),
        Some("t".to_string()),
        Some("d".to_string()),
        day(2000, 1, 1),
    );
    assert_eq!(r.title, "t");
    assert_eq!(r.description, "d");
    assert_eq!(r.url, "http://e.test/");
}

#[test]
fn dates_follow_the_calendar() {
    assert!(Date::new(2024, 2, 29).is_some());
    assert!(Date::new(2023, 2, 29).is_none());
    assert!(Date::new(1900, 2, 29).is_none());
    assert!(Date::new(2000, 2, 29).is_some());
    assert!(Date::new(-4, 2, 29).is_some());
    assert!(Date::new(2024, 4, 31).is_none());
    assert!(Date::new(2024, 12, 31).is_some());
    assert!(Date::new(2024, 13, 1).is_none());
    assert!(Date::new(2024, 0, 1).is_none());
    assert!(Date::new(2024, 1, 0).is_none());
    let d = Date::new(2024, 1, 1).unwrap();
    assert_eq!((d.year, d.month, d.day), (2024, 1, 1));
}
