use spider_node::headers::{collect_headers, HeaderField, HeaderOverflow, HEADER_LIMIT};
use spider_node::record::Reading;
use spider_node::Website;

fn field(name: &str, value: &str) -> HeaderField {
    HeaderField { name: name.to_string(), value: Reading::Present(value.to_string()) }
}

#[test]
fn accepted_fields_become_headers() {
    let h = collect_headers(&vec![field("Accept", "text/html"), field("x-a", "1\t2 é")]).unwrap();
    assert_eq!(h.len(), 2);
    assert_eq!(h.get("accept").unwrap().as_bytes(), b"text/html");
    assert_eq!(h.get("x-a").unwrap().as_bytes(), "1\t2 é".as_bytes());
}

#[test]
fn names_are_kept_in_small_letters_and_values_in_order() {
    let h = collect_headers(&vec![field("X-A", "1"), field("x-b", "2"), field("x-a", "3")]).unwrap();
    let names: Vec<&str> = h.keys().map(|k| k.as_str()).collect();
    assert_eq!(names.len(), 2);
    assert!(names.contains(&"x-a") && names.contains(&"x-b"));
    let values: Vec<&str> = h.get_all("x-a").iter().map(|v| v.to_str().unwrap()).collect();
    assert_eq!(values, vec!["1", "3"]);
}

#[test]
fn fields_with_bad_names_or_values_are_passed_over() {
    let h = collect_headers(&vec![
        field("", "1"),
        field("a b", "1"),
        field("é", "1"),
        field("a\"", "1"),
        field("ok", "line\nbreak"),
        field("del", "\u{7f}"),
        field("!#$%&'*+-.^_`|~09azAZ", "2"),
    ]).unwrap();
    assert_eq!(h.len(), 1);
    assert_eq!(h.get("!#$%&'*+-.^_`|~09azaz").unwrap(), "2");
}

#[test]
fn the_longest_name_is_accepted_and_one_more_is_not() {
    let longest = "a".repeat(65535);
    let h = collect_headers(&vec![field(&longest, "1"), field(&"b".repeat(65536), "1")]).unwrap();
    assert_eq!(h.len(), 1);
    assert!(h.contains_key(longest.as_str()));
}

#[test]
fn a_field_without_a_text_is_an_empty_header() {
    let h = collect_headers(&vec![
        HeaderField { name: "a".to_string(), value: Reading::Absent },
        HeaderField { name: "b".to_string(), value: Reading::Failed },
    ]).unwrap();
    assert_eq!(h.get("a").unwrap(), "");
    assert_eq!(h.get("b").unwrap(), "");
}

#[test]
fn rejected_fields_leave_no_trace() {
    let with = collect_headers(&vec![field("a", "1"), field("b b", "2"), field("A", "3")]).unwrap();
    let without = collect_headers(&vec![field("a", "1"), field("A", "3")]).unwrap();
    assert_eq!(with, without);
}

#[test]
fn capitals_in_names_make_no_difference() {
    let one = collect_headers(&vec![field("ACCEPT", "1"), field("x-Y", "2")]).unwrap();
    let other = collect_headers(&vec![field("accept", "1"), field("X-y", "2")]).unwrap();
    assert_eq!(one, other);
}

fn numbered(count: usize) -> Vec<HeaderField> {
    (0..count).map(|i| field(&format!("h{}", i), "1")).collect()
}

#[test]
fn a_table_surely_takes_as_many_names_as_the_limit_says() {
    let mut fields = numbered(HEADER_LIMIT);
    fields.push(field("H0", "2"));
    fields.push(field("not a name", "2"));
    assert_eq!(collect_headers(&fields).unwrap().len(), HEADER_LIMIT + 1);
}

#[test]
fn a_table_mostly_takes_more_names_than_the_limit() {
    assert_eq!(collect_headers(&numbered(10000)).unwrap().len(), 10000);
}

#[test]
fn a_table_overflows_beyond_its_largest_size() {
    let fields = numbered(40000);
    assert_eq!(collect_headers(&fields).err(), Some(HeaderOverflow));
    let mut site = Website::new("https://example.com".to_string(), None);
    let _ = site.with_headers(Some(vec![field("a", "1")]));
    assert_eq!(site.with_headers(Some(fields)).err(), Some(HeaderOverflow));
    assert_eq!(site.inner().configuration.headers.as_ref().unwrap().len(), 1);
}

#[test]
fn the_site_gets_the_headers() {
    let mut site = Website::new("https://example.com".to_string(), None);
    assert!(site.inner().configuration.headers.is_none());
    assert!(site.with_headers(Some(vec![field("Accept", "a"), field("bad name", "b")])).is_ok());
    let headers = site.inner().configuration.headers.as_ref().unwrap();
    assert_eq!(headers.len(), 1);
    assert_eq!(headers.get("accept").unwrap(), "a");
    assert!(site.with_headers(None).is_ok());
    assert!(site.inner().configuration.headers.is_none());
}
