use spider_node::Website;

fn entries(list: &[(&str, u32)]) -> Option<Vec<(String, u32)>> {
    Some(list.iter().map(|e| (e.0.to_string(), e.1)).collect())
}

fn website() -> Website {
    Website::new("https://example.com".to_string(), None)
}

fn limits(site: &Website) -> Vec<(String, u32)> {
    let budget = site.inner().configuration.budget.as_ref().unwrap();
    let mut list: Vec<(String, u32)> =
        budget.iter().map(|e| (e.0.inner().to_string(), *e.1)).collect();
    list.sort();
    list
}

#[test]
fn one_path_gets_its_limit() {
    let mut site = website();
    assert!(site.inner().configuration.budget.is_none());
    site.with_budget(entries(&[("*", 15)]));
    assert_eq!(Some(limits(&site)), entries(&[("*", 15)]));
}

#[test]
fn every_path_gets_its_limit() {
    let mut site = website();
    site.with_budget(entries(&[("*", 10), ("/a", 5)]));
    assert_eq!(Some(limits(&site)), entries(&[("*", 10), ("/a", 5)]));
    site.with_budget(entries(&[("/b", 3), ("*", u32::MAX), ("/a", 0)]));
    assert_eq!(Some(limits(&site)), entries(&[("*", u32::MAX), ("/a", 0), ("/b", 3)]));
}

#[test]
fn commas_belong_to_the_path() {
    let mut site = website();
    site.with_budget(entries(&[("/a,7,/b", 2)]));
    assert_eq!(Some(limits(&site)), entries(&[("/a,7,/b", 2)]));
}

#[test]
fn a_budget_can_be_empty() {
    let mut site = website();
    site.with_budget(entries(&[]));
    assert_eq!(limits(&site), vec![]);
}

#[test]
fn no_budget_leaves_the_one_before() {
    let mut site = website();
    site.with_budget(entries(&[("*", 15)]));
    site.with_budget(None);
    assert_eq!(Some(limits(&site)), entries(&[("*", 15)]));
}

#[test]
fn a_later_entry_for_the_same_path_wins() {
    let mut site = website();
    site.with_budget(entries(&[("/a", 1), ("/b", 2), ("/a", 3)]));
    assert_eq!(Some(limits(&site)), entries(&[("/a", 3), ("/b", 2)]));
}

#[test]
fn paths_that_differ_in_capitals_share_a_limit() {
    let mut site = website();
    site.with_budget(entries(&[("/A", 1), ("/a", 2)]));
    let kept = limits(&site);
    assert_eq!(kept.len(), 1);
    assert!(kept[0].1 == 1 || kept[0].1 == 2);
}
