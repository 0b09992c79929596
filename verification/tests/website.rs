use spider_node::record::{Object, Property, Reading, RecordError};
use spider_node::Website;

fn website() -> Website {
    Website::new("https://example.com".to_string(), None)
}

fn object(key: &str, value: &str) -> Object {
    Object {
        properties: Some(vec![Property {
            key: key.to_string(),
            text: Reading::Present(value.to_string()),
            unsigned: Reading::Failed,
            signed: Reading::Failed,
            bytes: Reading::Failed,
            boolean: Reading::Failed,
        }]),
    }
}

const START: &str = "http://127.0.0.1:1";
const OTHER: &str = "http://127.0.0.1:1/Other";

/// A website that has visited two addresses at which nothing answers.
fn visited(raw_content: Option<bool>) -> Website {
    visited_with(raw_content, &[OTHER])
}

/// A website that has visited its address and others, at which nothing answers: a
/// scrape keeps the links, and stores an empty page for each.
fn visited_with(raw_content: Option<bool>, others: &[&str]) -> Website {
    let mut w = Website::new(START.to_string(), raw_content);
    let mut extra = spider::hashbrown::HashSet::new();
    for other in others {
        extra.insert(spider::CaseInsensitiveString::new(other));
    }
    w.inner_mut().persist_links().set_extra_links(extra);
    let runtime = spider::tokio::runtime::Runtime::new().unwrap();
    runtime.block_on(w.inner_mut().scrape_raw());
    w
}

fn sorted(mut list: Vec<String>) -> Vec<String> {
    list.sort();
    list
}

#[test]
fn a_new_website_is_empty() {
    let w = website();
    assert_eq!(w.status(), "Start");
    assert_eq!(w.size(), 0);
    assert!(w.get_links().is_empty());
    assert!(w.get_pages().is_empty());
    assert!(w.read_data().is_empty());
    let c = &w.inner().configuration;
    assert!(!c.respect_robots_txt && !c.subdomains && !c.tld && !c.http2_prior_knowledge);
    assert_eq!(c.delay, 0);
    assert_eq!(c.request_timeout.as_ref().unwrap().as_millis(), 15000);
    assert!(c.user_agent.is_none() && c.proxies.is_none() && c.blacklist_url.is_none());
    assert!(c.headers.is_none() && c.budget.is_none() && c.external_domains_caseless.is_empty());
    assert_eq!(c.cron_str, "");
    assert_eq!(c.cron_type, spider::website::CronType::Crawl);
}

#[test]
fn the_address_gets_a_scheme_and_loses_its_padding() {
    let url = |text: &str| {
        let w = Website::new(text.to_string(), None);
        w.inner().get_url().inner().to_string()
    };
    assert_eq!(url("https://example.com"), "https://example.com");
    assert_eq!(url("http://example.com"), "http://example.com");
    assert_eq!(url("httpbin.org"), "httpbin.org");
    assert_eq!(url("example.com"), "https://example.com");
    assert_eq!(url("\t example.com \u{3000} "), "https://example.com");
    assert_eq!(url("example.com\t"), "https://example.com\t");
    assert_eq!(url(""), "https://");
}

#[test]
fn the_default_export_is_named_by_the_address_of_the_site() {
    let w = Website::new("example.com".to_string(), None);
    let export = w.export_jsonl_data(None);
    assert_eq!(export.target.directory, "./storage");
    assert_eq!(export.target.file, "./storage/example.comjsonl");
    let export = w.export_jsonl_data(Some("a/b.jsonl".to_string()));
    assert_eq!(export.target.directory, "a");
    assert_eq!(export.target.file, "a/b.jsonl");
}

#[test]
fn objects_are_appended_to_the_dataset() {
    let mut w = website();
    assert_eq!(w.push_data(&object("a", "1")), Ok(()));
    assert_eq!(w.read_data(), &b"{\"a\":\"1\"}".to_vec());
    assert_eq!(w.push_data(&object("b", "2")), Ok(()));
    assert_eq!(w.read_data(), &b"{\"a\":\"1\"}\n{\"b\":\"2\"}".to_vec());
    assert_eq!(w.export_jsonl_data(None).data, w.read_data());
}

#[test]
fn an_object_without_keys_leaves_the_dataset_alone() {
    let mut w = website();
    let _ = w.push_data(&object("a", "1"));
    assert_eq!(w.push_data(&Object { properties: None }), Err(RecordError::Keys));
    assert_eq!(w.read_data(), &b"{\"a\":\"1\"}".to_vec());
}

#[test]
fn ids_count_up() {
    let mut w = website();
    assert!(w.can_subscribe());
    assert_eq!(w.subscribe(10), 0);
    assert_eq!(w.subscribe(11), 1);
    assert_eq!(w.subscribe(12), 2);
    assert_eq!(w.unsubscribe(Some(2)).aborted, vec![12]);
    assert_eq!(w.subscribe(13), 2);
}

#[test]
fn unsubscribing_undoes_subscribing() {
    let mut w = website();
    w.subscribe(10);
    let id = w.subscribe(11);
    let released = w.unsubscribe(Some(id));
    assert!(released.found);
    assert_eq!(released.aborted, vec![11]);
    assert_eq!(w.unsubscribe(None).aborted, vec![10]);
}

#[test]
fn an_id_is_released_once() {
    let mut w = website();
    let id = w.subscribe(10);
    assert!(w.unsubscribe(Some(id)).found);
    let again = w.unsubscribe(Some(id));
    assert!(!again.found);
    assert!(again.aborted.is_empty());
    assert!(!w.unsubscribe(Some(7)).found);
}

#[test]
fn releasing_one_id_spares_the_others() {
    let mut w = website();
    for handle in [10, 11, 12, 13] {
        w.subscribe(handle);
    }
    assert_eq!(w.unsubscribe(Some(1)).aborted, vec![11]);
    assert_eq!(w.unsubscribe(Some(3)).aborted, vec![13]);
    assert_eq!(w.unsubscribe(Some(0)).aborted, vec![10]);
    assert_eq!(w.unsubscribe(Some(2)).aborted, vec![12]);
}

#[test]
fn the_next_id_is_above_every_id_in_use() {
    let mut w = website();
    for handle in [10, 11, 12] {
        w.subscribe(handle);
    }
    assert!(w.unsubscribe(Some(0)).found);
    assert_eq!(w.subscribe(20), 3);
    assert_eq!(w.unsubscribe(Some(2)).aborted, vec![12]);
    assert_eq!(w.subscribe(21), 4);
    assert_eq!(w.unsubscribe(None).aborted, vec![11, 20, 21]);
}

#[test]
fn releasing_everything_starts_the_ids_over() {
    let mut w = website();
    for handle in [10, 11, 12] {
        w.subscribe(handle);
    }
    let released = w.unsubscribe(None);
    assert!(released.found);
    assert_eq!(released.aborted, vec![10, 11, 12]);
    assert!(!w.unsubscribe(None).found);
    assert_eq!(w.subscribe(13), 0);
}

#[test]
fn stopping_marks_the_site() {
    let mut w = website();
    assert!(format!("{:?}", w.inner()).contains("shutdown: false"));
    assert!(!w.stop(Some(3)).found);
    assert!(format!("{:?}", w.inner()).contains("shutdown: true"));
}

#[test]
fn flags_are_set_one_by_one() {
    let mut w = website();
    w.with_respect_robots_txt(true);
    assert!(w.inner().configuration.respect_robots_txt);
    assert!(!w.inner().configuration.subdomains);
    w.with_subdomains(true);
    assert!(w.inner().configuration.subdomains);
    assert!(!w.inner().configuration.tld);
    w.with_tld(true);
    assert!(w.inner().configuration.tld);
    assert!(!w.inner().configuration.http2_prior_knowledge);
    w.with_http2_prior_knowledge(true);
    assert!(w.inner().configuration.http2_prior_knowledge);
    w.with_tld(false).inner();
    assert!(!w.inner().configuration.tld);
    assert!(w.inner().configuration.respect_robots_txt);
}

#[test]
fn times_are_in_milliseconds() {
    let mut w = website();
    w.with_delay(250);
    assert_eq!(w.inner().configuration.delay, 250);
    w.with_request_timeout(Some(1500));
    assert_eq!(w.inner().configuration.request_timeout.as_ref().unwrap().as_millis(), 1500);
    w.with_request_timeout(None);
    assert!(w.inner().configuration.request_timeout.is_none());
}

#[test]
fn texts_are_handed_to_the_site() {
    let mut w = website();
    w.with_user_agent(Some("bot/1"));
    assert_eq!(w.inner().configuration.user_agent.as_ref().unwrap().as_str(), "bot/1");
    w.with_user_agent(None);
    assert!(w.inner().configuration.user_agent.is_none());
    w.with_proxies(Some(vec!["http://p".to_string(), "http://q".to_string()]));
    assert_eq!(
        **w.inner().configuration.proxies.as_ref().unwrap(),
        vec!["http://p".to_string(), "http://q".to_string()]
    );
    w.with_proxies(None);
    assert!(w.inner().configuration.proxies.is_none());
    w.with_blacklist_url(Some(vec!["^/a".to_string(), "".to_string()]));
    let patterns: Vec<&str> =
        w.inner().configuration.blacklist_url.as_ref().unwrap().iter().map(|p| p.as_str()).collect();
    assert_eq!(patterns, vec!["^/a", ""]);
    w.with_blacklist_url(None);
    assert!(w.inner().configuration.blacklist_url.is_none());
}

#[test]
fn external_domains_join_by_host_name() {
    let mut w = website();
    w.with_external_domains(Some(vec![
        "https://Other.example/path".to_string(),
        "not a url".to_string(),
        "*".to_string(),
        "https://other.EXAMPLE".to_string(),
        "mailto:a@b.example".to_string(),
    ]));
    let mut hosts: Vec<String> =
        w.inner().configuration.external_domains_caseless.iter().map(|h| h.to_string()).collect();
    hosts.sort();
    assert_eq!(hosts, vec!["", "*", "other.example"]);
    w.with_external_domains(None);
    assert!(w.inner().configuration.external_domains_caseless.is_empty());
}

#[test]
fn a_scheduled_job_crawls_unless_it_is_to_scrape() {
    let mut w = website();
    w.with_cron("1/5 * * * * *".to_string(), Some("scrape".to_string()));
    assert_eq!(w.inner().configuration.cron_str, "1/5 * * * * *");
    assert_eq!(w.inner().configuration.cron_type, spider::website::CronType::Scrape);
    w.with_cron("1/6 * * * * *".to_string(), Some("Scrape".to_string()));
    assert_eq!(w.inner().configuration.cron_type, spider::website::CronType::Crawl);
    w.with_cron("1/7 * * * * *".to_string(), None);
    assert_eq!(w.inner().configuration.cron_str, "1/7 * * * * *");
    assert_eq!(w.inner().configuration.cron_type, spider::website::CronType::Crawl);
}

#[test]
fn building_changes_nothing() {
    for url in ["https://example.com", "https://"] {
        let mut w = Website::new(url.to_string(), None);
        w.with_tld(true);
        let before = format!("{:?}", w.inner());
        w.build();
        assert_eq!(format!("{:?}", w.inner()), before);
    }
}

#[test]
fn visited_links_are_handed_out_as_they_were_written() {
    let w = visited(None);
    assert_eq!(sorted(w.get_links()), vec![START, OTHER]);
    assert_eq!(w.status(), "Idle");
}

#[test]
fn the_size_is_the_number_of_links() {
    let w = visited(None);
    assert_eq!(w.size(), 2);
    assert_eq!(w.size() as usize, w.get_links().len());
}

#[test]
fn draining_hands_out_the_links_and_leaves_none() {
    let mut w = visited(None);
    assert_eq!(sorted(w.drain_links()), vec![START, OTHER]);
    assert_eq!(w.size(), 0);
    assert!(w.get_links().is_empty());
    assert!(w.drain_links().is_empty());
    assert_eq!(w.get_pages().len(), 2);
}

#[test]
fn stored_pages_carry_the_flag_of_the_website() {
    for raw in [Some(true), Some(false), None] {
        let w = visited(raw);
        let pages = w.get_pages();
        let urls = pages.iter().map(|p| p.page.get_url().to_string()).collect();
        assert_eq!(sorted(urls), vec![START, OTHER]);
        for p in pages.iter() {
            assert_eq!(p.raw_content, raw == Some(true));
        }
    }
}

#[test]
fn clearing_forgets_links_and_pages_and_keeps_the_settings() {
    let mut w = visited(None);
    w.with_tld(true);
    let _ = w.push_data(&object("a", "1"));
    w.clear();
    assert!(w.get_pages().is_empty());
    assert!(w.get_links().is_empty());
    assert_eq!(w.size(), 0);
    assert!(w.inner().configuration.tld);
    assert_eq!(w.read_data().len(), 9);
}

#[test]
fn every_record_has_a_line_of_its_own() {
    let empty = Object { properties: Some(vec![]) };
    let others = ["http://127.0.0.1:1/a", "http://127.0.0.1:1/b", "http://127.0.0.1:1/c"];
    let mut w = visited_with(None, &others);
    assert_eq!(w.size(), 4);
    let _ = w.push_data(&empty);
    assert_eq!(w.read_data(), &b"{}".to_vec());
    let _ = w.push_data(&empty);
    assert_eq!(w.read_data(), &b"{}\n{}\n".to_vec());
    let _ = w.push_data(&empty);
    assert_eq!(w.read_data(), &b"{}\n{}\n{}".to_vec());
}

#[test]
fn the_lines_of_the_dataset_are_the_records() {
    let mut w = website();
    let values = ["1", "two\nlines", "", "\"é\""];
    for value in values {
        let _ = w.push_data(&object("k", value));
    }
    let data = String::from_utf8(w.read_data().clone()).unwrap();
    let lines: Vec<&str> = data.split('\n').filter(|line| !line.is_empty()).collect();
    assert_eq!(lines.len(), values.len());
    for (line, value) in lines.iter().zip(values) {
        let read: serde_json::Value = serde_json::from_str(line).unwrap();
        assert_eq!(read["k"], value);
    }
}

#[test]
fn what_has_been_stored_stays_in_the_dataset() {
    let mut w = website();
    let mut before: Vec<u8> = Vec::new();
    for value in ["1", "two", "", "é"] {
        let _ = w.push_data(&object("k", value));
        assert!(w.read_data().starts_with(&before));
        assert!(w.read_data().len() > before.len());
        before = w.read_data().clone();
    }
}
