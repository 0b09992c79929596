use spider_node::session::{
    subscription_capacity, Action, Event, Method, Session,
};
use spider_node::{Cron, Website};

fn website() -> Website {
    Website::new("https://example.com".to_string(), None)
}

#[test]
fn without_a_listener_the_site_is_crawled_in_the_foreground() {
    let mut w = website();
    let s = w.crawl(false, Some(true), None);
    assert_eq!(s.action(), Action::Run(Method::CrawlRaw));
    assert!(w.can_advance(&s, &Event::Completed));
    let s = w.advance(s, Event::Completed);
    assert_eq!(s, Session::Finished);
    assert_eq!(s.action(), Action::Rest);
    assert!(!w.unsubscribe(None).found);
    assert!(!w.stop(None).found);
}

#[test]
fn headless_chooses_the_browser() {
    let w = website();
    assert_eq!(w.crawl(false, None, Some(true)).action(), Action::Run(Method::Crawl));
    assert_eq!(w.crawl(false, None, Some(false)).action(), Action::Run(Method::CrawlRaw));
    assert_eq!(w.scrape(false, None, Some(true)).action(), Action::Run(Method::Scrape));
    assert_eq!(w.scrape(false, None, None).action(), Action::Run(Method::ScrapeRaw));
}

#[test]
fn a_foreground_crawl_registers_its_listener_at_the_end() {
    let mut w = website();
    let s = w.crawl(true, None, None);
    assert_eq!(s.action(), Action::Listen);
    let s = w.advance(s, Event::Listening(11));
    assert_eq!(s.action(), Action::Run(Method::CrawlRaw));
    assert!(!w.unsubscribe(Some(0)).found);
    let s = w.advance(s, Event::Completed);
    assert_eq!(s, Session::Finished);
    assert_eq!(w.unsubscribe(Some(0)).aborted, vec![11]);
    assert!(!w.stop(None).found);
}

#[test]
fn a_background_scrape_registers_its_listener_and_its_task() {
    let mut w = website();
    assert_eq!(w.subscribe(1), 0);
    let s = w.scrape(true, Some(true), Some(true));
    assert_eq!(s.action(), Action::ListenToCopy);
    let s = w.advance(s, Event::Listening(21));
    assert_eq!(s.action(), Action::Spawn(Method::Scrape));
    assert!(!w.can_advance(&s, &Event::Completed));
    let s = w.advance(s, Event::Spawned(22));
    assert_eq!(s, Session::Finished);
    assert_eq!(w.stop(Some(0)).aborted, vec![22]);
    assert_eq!(w.unsubscribe(None).aborted, vec![1, 21]);
    assert_eq!(w.size(), 0);
}

#[test]
fn a_scheduled_job_keeps_its_listener() {
    let mut w = website();
    let s = w.run_cron(true);
    assert_eq!(s.action(), Action::Listen);
    let s = w.advance(s, Event::Listening(31));
    assert_eq!(s.action(), Action::Schedule);
    let s = w.advance(s, Event::Scheduled(32));
    assert_eq!(s, Session::Scheduled { cron: Cron { inner: 32, cron_handle: Some(31) } });
    assert!(!w.unsubscribe(None).found);
    let silent = w.run_cron(false);
    assert_eq!(silent.action(), Action::Schedule);
    let silent = w.advance(silent, Event::Scheduled(33));
    assert_eq!(silent, Session::Scheduled { cron: Cron { inner: 33, cron_handle: None } });
}

#[test]
fn stopping_a_scheduled_job_names_its_runner_and_its_listener() {
    let mut cron = Cron { inner: 4, cron_handle: Some(5) };
    let stop = cron.stop();
    assert_eq!(stop.runner, 4);
    assert_eq!(stop.aborted, Some(5));
    assert_eq!(cron, Cron { inner: 4, cron_handle: Some(5) });
    assert_eq!(Cron { inner: 4, cron_handle: None }.stop().aborted, None);
}

#[test]
fn events_out_of_turn_are_told_apart() {
    let w = website();
    let s = w.crawl(true, Some(true), None);
    assert!(w.can_advance(&s, &Event::Listening(1)));
    assert!(!w.can_advance(&s, &Event::Spawned(1)));
    assert!(!w.can_advance(&s, &Event::Completed));
    assert!(!w.can_advance(&s, &Event::Scheduled(1)));
    assert!(!w.can_advance(&Session::Finished, &Event::Completed));
}

#[test]
fn a_subscription_takes_half_of_the_buffer() {
    assert_eq!(subscription_capacity(88), 44);
    assert_eq!(subscription_capacity(1), 0);
}
