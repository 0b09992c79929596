//! A website: the site that is crawled, the tasks that follow it, and the dataset that
//! the caller collects.
use vstd::prelude::*;

use indexmap::IndexMap;
use spider::page::Page;
use spider::website::Website as Site;

use crate::budget::{budget_map, folds, limits_map, set_budget};
use crate::cron::Cron;
use crate::handles::{
    ascending_ids, enroll, enrolled, entries_left, following_id, handle_entries, has_room,
    lemma_following_id, new_table, release, released_handles, room_left, Released,
};
use crate::headers::{
    collect_headers, headers_of, names_of, HeaderField, HeaderOverflow, HEADER_LIMIT,
};
use crate::record::{store, stored, Object, RecordError};
use crate::session::{
    crawl_method, crawl_session, cron_opening, cron_session, opening, scrape_method, scrape_session,
    Event, Session, Work,
};
use crate::site::{
    compact, compact_texts, domain_hosts, new_site, new_site_state, parsed_host, set_blacklist_url,
    set_cron, set_delay, set_external_domains, set_headers, set_http2_prior_knowledge,
    set_proxies, set_request_timeout, set_respect_robots_txt, set_subdomains, set_tld,
    set_user_agent, site_build, site_clear, site_drain_links, site_links, site_pages, site_size,
    site_state, site_status, site_stop, site_url, start_url, texts, CompactText, CronType, SiteState,
};
use crate::storage::{default_file, directory_for, export_target, file_for, Export};
use crate::text::{chars_of, same_text};

verus! {

/// A page for the caller: a stored page, and whether its content is left as it is.
pub struct NPage<'a> {
    pub page: &'a Page,
    /// Do not convert the content to text.
    pub raw_content: bool,
}

/// A website to crawl.
pub struct Website {
    /// The site of the crawler.
    inner: Site,
    /// The listeners that were started, by id.
    subscription_handles: IndexMap<u32, u64>,
    /// The crawls that were started in the background, by id.
    crawl_handles: IndexMap<u32, u64>,
    /// Do not convert content to text.
    raw_content: bool,
    /// The dataset collected.
    collected_data: Vec<u8>,
}

/// What a website holds.
pub struct WebsiteState {
    pub site: SiteState,
    /// The listeners, in the order of their table.
    pub subscriptions: Seq<(u32, u64)>,
    /// The background crawls, in the order of their table.
    pub crawls: Seq<(u32, u64)>,
    pub raw_content: bool,
    pub data: Seq<u8>,
}

impl View for Website {
    type V = WebsiteState;

    closed spec fn view(&self) -> WebsiteState {
        WebsiteState {
            site: site_state(self.inner),
            subscriptions: handle_entries(self.subscription_handles),
            crawls: handle_entries(self.crawl_handles),
            raw_content: self.raw_content,
            data: self.collected_data@,
        }
    }
}

impl WebsiteState {
    /// The state with another site.
    pub open spec fn with_site(self, site: SiteState) -> WebsiteState {
        WebsiteState { site, ..self }
    }

    /// Whether the handles that an event registers can get their ids.
    pub open spec fn can_take(self, session: Session, event: Event) -> bool {
        &&& session.new_crawl(event) is Some ==> has_room(self.crawls)
        &&& session.new_subscription(event) is Some ==> has_room(self.subscriptions)
    }

    /// The state after an event of a session: the handles that it registers have ids.
    pub open spec fn after(self, session: Session, event: Event) -> WebsiteState {
        WebsiteState {
            crawls: match session.new_crawl(event) {
                Some(handle) => enrolled(self.crawls, handle),
                None => self.crawls,
            },
            subscriptions: match session.new_subscription(event) {
                Some(handle) => enrolled(self.subscriptions, handle),
                None => self.subscriptions,
            },
            ..self
        }
    }
}

impl Website {
    /// Whether the tables are sound: the ids grow along each of them.
    pub open spec fn wf(&self) -> bool {
        ascending_ids(self@.subscriptions) && ascending_ids(self@.crawls)
    }

    /// A new website.
    pub fn new(url: String, raw_content: Option<bool>) -> (r: Self)
        ensures
            r.wf(),
            r@ == (WebsiteState {
                site: new_site_state(url@, parsed_host(start_url(url@)) is Some),
                subscriptions: Seq::empty(),
                crawls: Seq::empty(),
                raw_content: raw_content == Some(true),
                data: Seq::empty(),
            }),
    {
        Website {
            inner: new_site(url.as_str()),
            subscription_handles: new_table(),
            crawl_handles: new_table(),
            raw_content: match raw_content {
                Some(raw) => raw,
                None => false,
            },
            collected_data: Vec::new(),
        }
    }

    /// The site of the crawler.
    pub fn inner(&self) -> (r: &Site)
        ensures
            site_state(*r) == self@.site,
    {
        &self.inner
    }

    /// The site of the crawler, for a crawl to fill.
    pub fn inner_mut(&mut self) -> (r: &mut Site)
        ensures
            site_state(*r) == old(self)@.site,
            final(self)@ == old(self)@.with_site(site_state(*final(r))),
    {
        &mut self.inner
    }

    /// The crawl status.
    pub fn status(&self) -> (r: String)
        ensures
            r@ == self@.site.status,
    {
        site_status(&self.inner)
    }

    /// Stores an object in the dataset, as a JSON object on a line of its own.
    pub fn push_data(&mut self, obj: &Object) -> (r: Result<(), RecordError>)
        ensures
            match obj.properties {
                Some(ps) => r is Ok && final(self)@ == (WebsiteState {
                    data: stored(old(self)@.data, ps@, old(self)@.site.links.len()),
                    ..old(self)@
                }),
                None => r == Err::<(), RecordError>(RecordError::Keys) && final(self)@ == old(
                    self,
                )@,
            },
    {
        let link_count: usize = site_size(&self.inner);
        store(&mut self.collected_data, obj, link_count)
    }

    /// The dataset.
    pub fn read_data(&self) -> (r: &Vec<u8>)
        ensures
            r@ == self@.data,
    {
        &self.collected_data
    }

    /// What an export of the dataset writes, and where; its steps are to be taken one by
    /// one. It creates the path if it does not exist, which defaults to `./storage`.
    pub fn export_jsonl_data(&self, export_path: Option<String>) -> (r: Export<'_>)
        ensures
            r.data@ == self@.data,
            match export_path {
                Some(p) => r.target.directory@ == directory_for(p@) && r.target.file@ == file_for(
                    p@,
                ),
                None => r.target.directory@ == "./storage"@ && r.target.file@ == default_file(
                    self@.site.url,
                ),
            },
    {
        let url = site_url(&self.inner);
        Export { target: export_target(export_path, url.as_str()), data: &self.collected_data }
    }

    /// Whether one more listener can be registered.
    pub fn can_subscribe(&self) -> (r: bool)
        requires
            self.wf(),
        ensures
            r == has_room(self@.subscriptions),
    {
        room_left(&self.subscription_handles)
    }

    /// Registers the listener with this handle, and gives its id: one above the highest
    /// id in use.
    pub fn subscribe(&mut self, handle: u64) -> (id: u32)
        requires
            old(self).wf(),
            has_room(old(self)@.subscriptions),
        ensures
            final(self).wf(),
            id == following_id(old(self)@.subscriptions),
            forall|i: int|
                0 <= i < old(self)@.subscriptions.len() ==> (
                #[trigger] old(self)@.subscriptions[i]).0 < id,
            final(self)@ == (WebsiteState {
                subscriptions: old(self)@.subscriptions.push((id, handle)),
                ..old(self)@
            }),
            following_id(final(self)@.subscriptions) == id + 1,
    {
        proof {
            lemma_following_id(self@.subscriptions);
        }
        enroll(&mut self.subscription_handles, handle)
    }

    /// Removes the listener with this id, or all listeners. What it returns tells which
    /// listeners to abort, and whether there were any.
    pub fn unsubscribe(&mut self, id: Option<u32>) -> (r: Released)
        requires
            old(self).wf(),
        ensures
            final(self).wf(),
            r.aborted@ == released_handles(old(self)@.subscriptions, id),
            r.found == (r.aborted@.len() > 0),
            final(self)@ == (WebsiteState {
                subscriptions: entries_left(old(self)@.subscriptions, id),
                ..old(self)@
            }),
            following_id(final(self)@.subscriptions) <= following_id(old(self)@.subscriptions),
    {
        release(&mut self.subscription_handles, id)
    }

    /// Stops the site, and removes the background crawl with this id, or all of them.
    /// What it returns tells which crawls to abort, and whether there were any.
    pub fn stop(&mut self, id: Option<u32>) -> (r: Released)
        requires
            old(self).wf(),
        ensures
            final(self).wf(),
            r.aborted@ == released_handles(old(self)@.crawls, id),
            r.found == (r.aborted@.len() > 0),
            final(self)@ == (WebsiteState {
                site: SiteState { stopped: true, ..old(self)@.site },
                crawls: entries_left(old(self)@.crawls, id),
                ..old(self)@
            }),
            following_id(final(self)@.crawls) <= following_id(old(self)@.crawls),
    {
        site_stop(&mut self.inner);
        release(&mut self.crawl_handles, id)
    }

    /// Begins a crawl. With a listener the crawl can run in the background.
    pub fn crawl(&self, listening: bool, background: Option<bool>, headless: Option<bool>) -> (r:
        Session)
        ensures
            r == opening(listening, background, crawl_method(headless)),
            r.valid(),
    {
        crawl_session(listening, background, headless)
    }

    /// Begins a scrape. With a listener the scrape can run in the background.
    pub fn scrape(&self, listening: bool, background: Option<bool>, headless: Option<bool>) -> (r:
        Session)
        ensures
            r == opening(listening, background, scrape_method(headless)),
            r.valid(),
    {
        scrape_session(listening, background, headless)
    }

    /// Begins a scheduled job.
    pub fn run_cron(&self, listening: bool) -> (r: Session)
        ensures
            r == cron_opening(listening),
            r.valid(),
    {
        cron_session(listening)
    }

    /// Whether an event is the one that a session waits for, and the handles that it
    /// registers can get their ids.
    pub fn can_advance(&self, session: &Session, event: &Event) -> (r: bool)
        requires
            self.wf(),
        ensures
            r == (session.valid() && session.expects(*event) && self@.can_take(*session, *event)),
    {
        match (*session, *event) {
            (Session::Opening { .. }, Event::Listening(_)) => true,
            (Session::Working { work, listener }, event) => match (work, event) {
                (Work::Run(_), Event::Completed) => {
                    listener.is_none() || room_left(&self.subscription_handles)
                },
                (Work::Spawn(_), Event::Spawned(_)) => {
                    listener.is_some() && room_left(&self.crawl_handles) && room_left(
                        &self.subscription_handles,
                    )
                },
                (Work::Schedule, Event::Scheduled(_)) => true,
                _ => false,
            },
            _ => false,
        }
    }

    /// Takes note of what has been done in a session, and gives where it stands then.
    pub fn advance(&mut self, session: Session, event: Event) -> (r: Session)
        requires
            old(self).wf(),
            session.valid(),
            session.expects(event),
            old(self)@.can_take(session, event),
        ensures
            final(self).wf(),
            r == session.after(event),
            r.valid(),
            final(self)@ == old(self)@.after(session, event),
    {
        match session {
            Session::Opening { work } => match event {
                Event::Listening(handle) => Session::Working { work, listener: Some(handle) },
                _ => Session::Finished,
            },
            Session::Working { work, listener } => {
                match work {
                    Work::Schedule => match event {
                        Event::Scheduled(runner) => Session::Scheduled {
                            cron: Cron { inner: runner, cron_handle: listener },
                        },
                        _ => Session::Finished,
                    },
                    Work::Run(_) => {
                        if let Some(handle) = listener {
                            enroll(&mut self.subscription_handles, handle);
                        }
                        Session::Finished
                    },
                    Work::Spawn(_) => {
                        if let Event::Spawned(crawl) = event {
                            enroll(&mut self.crawl_handles, crawl);
                        }
                        if let Some(handle) = listener {
                            enroll(&mut self.subscription_handles, handle);
                        }
                        Session::Finished
                    },
                }
            },
            _ => Session::Finished,
        }
    }

    /// The visited links, each once, in no particular order.
    pub fn get_links(&self) -> (r: Vec<String>)
        ensures
            texts(r@).no_duplicates(),
            texts(r@).to_set() == self@.site.links,
    {
        site_links(&self.inner)
    }

    /// The number of visited links, as far as 32 bits can hold it. Crawls in the
    /// background work on a copy and leave it as it is.
    pub fn size(&self) -> (r: u32)
        ensures
            r == self@.site.links.len() % 0x1_0000_0000,
    {
        let size: usize = site_size(&self.inner);
        let wide: u64 = size as u64;
        assert(#[verifier::truncate] (wide as u32) == wide % 0x1_0000_0000) by (bit_vector);
        #[verifier::truncate]
        (wide as u32)
    }

    /// The stored pages.
    pub fn get_pages(&self) -> (r: Vec<NPage<'_>>)
        ensures
            r@.len() == self@.site.pages.len(),
            forall|i: int|
                0 <= i < r@.len() ==> *(#[trigger] r@[i]).page == self@.site.pages[i]
                    && r@[i].raw_content == self@.raw_content,
    {
        let mut pages: Vec<NPage<'_>> = Vec::new();
        if let Some(stored) = site_pages(&self.inner) {
            for i in 0..stored.len()
                invariant
                    pages@.len() == i,
                    forall|j: int|
                        0 <= j < i ==> *(#[trigger] pages@[j]).page == stored@[j]
                            && pages@[j].raw_content == self.raw_content,
            {
                pages.push(NPage { page: &stored[i], raw_content: self.raw_content });
            }
        }
        pages
    }

    /// Hands out the visited links, each once, in no particular order, and forgets them.
    pub fn drain_links(&mut self) -> (r: Vec<String>)
        ensures
            texts(r@).no_duplicates(),
            texts(r@).to_set() == old(self)@.site.links,
            final(self)@ == old(self)@.with_site(
                (SiteState { links: Set::empty(), ..old(self)@.site }),
            ),
    {
        site_drain_links(&mut self.inner)
    }

    /// Forgets the visited links and the stored pages.
    pub fn clear(&mut self)
        ensures
            final(self)@ == old(self)@.with_site(
                (SiteState { links: Set::empty(), pages: Seq::empty(), ..old(self)@.site }),
            ),
    {
        site_clear(&mut self.inner);
    }

    /// Sets the headers of the requests: each field with a proper name and value appends
    /// a header. Headers that overflow the table leave the website as it is; up to
    /// `HEADER_LIMIT` names none do.
    pub fn with_headers(&mut self, headers: Option<Vec<HeaderField>>) -> (r: Result<
        &Self,
        HeaderOverflow,
    >)
        ensures
            r matches Ok(this) ==> *this == *final(self) && final(self)@ == old(self)@.with_site(
                (SiteState {
                    headers: match headers {
                        Some(fields) => Some(headers_of(fields@)),
                        None => None,
                    },
                    ..old(self)@.site
                }),
            ),
            r is Err ==> final(self)@ == old(self)@,
            headers is None ==> r is Ok,
            headers matches Some(fields) ==> (names_of(fields@).len() <= HEADER_LIMIT
                ==> r is Ok),
    {
        match headers {
            Some(fields) => match collect_headers(&fields) {
                Ok(h) => {
                    set_headers(&mut self.inner, Some(h));
                },
                Err(e) => {
                    return Err(e);
                },
            },
            None => {
                set_headers(&mut self.inner, None);
            },
        }
        Ok(self)
    }

    /// Sets the user agent of the requests.
    pub fn with_user_agent(&mut self, user_agent: Option<&str>) -> (r: &Self)
        ensures
            *r == *final(self),
            final(self)@ == old(self)@.with_site(
                (SiteState {
                    user_agent: match user_agent {
                        Some(agent) => Some(agent@),
                        None => None,
                    },
                    ..old(self)@.site
                }),
            ),
    {
        set_user_agent(&mut self.inner, user_agent);
        self
    }

    /// Respect the robots.txt file.
    pub fn with_respect_robots_txt(&mut self, respect_robots_txt: bool) -> (r: &Self)
        ensures
            *r == *final(self),
            final(self)@ == old(self)@.with_site(
                (SiteState { respect_robots_txt, ..old(self)@.site }),
            ),
    {
        set_respect_robots_txt(&mut self.inner, respect_robots_txt);
        self
    }

    /// Take subdomains along.
    pub fn with_subdomains(&mut self, subdomains: bool) -> (r: &Self)
        ensures
            *r == *final(self),
            final(self)@ == old(self)@.with_site((SiteState { subdomains, ..old(self)@.site })),
    {
        set_subdomains(&mut self.inner, subdomains);
        self
    }

    /// Take other top-level domains along.
    pub fn with_tld(&mut self, tld: bool) -> (r: &Self)
        ensures
            *r == *final(self),
            final(self)@ == old(self)@.with_site((SiteState { tld, ..old(self)@.site })),
    {
        set_tld(&mut self.inner, tld);
        self
    }

    /// Only use HTTP/2.
    pub fn with_http2_prior_knowledge(&mut self, http2_prior_knowledge: bool) -> (r: &Self)
        ensures
            *r == *final(self),
            final(self)@ == old(self)@.with_site(
                (SiteState { http2_prior_knowledge, ..old(self)@.site }),
            ),
    {
        set_http2_prior_knowledge(&mut self.inner, http2_prior_knowledge);
        self
    }

    /// Sets the longest time to wait for a response, in milliseconds.
    pub fn with_request_timeout(&mut self, request_timeout: Option<u32>) -> (r: &Self)
        ensures
            *r == *final(self),
            final(self)@ == old(self)@.with_site(
                (SiteState {
                    request_timeout: match request_timeout {
                        Some(ms) => Some(ms as nat),
                        None => None,
                    },
                    ..old(self)@.site
                }),
            ),
    {
        set_request_timeout(&mut self.inner, request_timeout);
        self
    }

    /// Sets the other domains that belong to the crawl.
    pub fn with_external_domains(&mut self, external_domains: Option<Vec<String>>) -> (r: &Self)
        ensures
            *r == *final(self),
            final(self)@ == old(self)@.with_site(
                (SiteState {
                    external_domains: match external_domains {
                        Some(list) => domain_hosts(texts(list@)),
                        None => Set::empty(),
                    },
                    ..old(self)@.site
                }),
            ),
    {
        set_external_domains(&mut self.inner, external_domains);
        self
    }

    /// Sets the crawling budget: each path of the entries gets its limit. Where paths
    /// differ only in capitals the crawl knows one path, which has one of their limits.
    pub fn with_budget(&mut self, budget: Option<Vec<(String, u32)>>) -> (r: &Self)
        ensures
            *r == *final(self),
            match budget {
                Some(entries) => {
                    &&& final(self)@.site.budget is Some
                    &&& folds(final(self)@.site.budget->0, limits_map(entries@))
                    &&& final(self)@ == old(self)@.with_site(
                        (SiteState { budget: final(self)@.site.budget, ..old(self)@.site }),
                    )
                },
                None => final(self)@ == old(self)@,
            },
    {
        match budget {
            Some(entries) => {
                let map = budget_map(&entries);
                set_budget(&mut self.inner, map);
            },
            None => {},
        }
        self
    }

    /// Sets the patterns of the addresses to leave out.
    pub fn with_blacklist_url(&mut self, blacklist_url: Option<Vec<String>>) -> (r: &Self)
        ensures
            *r == *final(self),
            final(self)@ == old(self)@.with_site(
                (SiteState {
                    blacklist_url: match blacklist_url {
                        Some(list) => Some(texts(list@)),
                        None => None,
                    },
                    ..old(self)@.site
                }),
            ),
    {
        match blacklist_url {
            Some(v) => {
                let mut blacklist: Vec<CompactText> = Vec::new();
                for i in 0..v.len()
                    invariant
                        compact_texts(blacklist@) == texts(v@).take(i as int),
                {
                    let ghost before = compact_texts(blacklist@);
                    blacklist.push(compact(v[i].as_str()));
                    assert(compact_texts(blacklist@) =~= before.push(v@[i as int]@));
                    assert(texts(v@).take(i + 1) =~= before.push(v@[i as int]@));
                }
                assert(texts(v@).take(v@.len() as int) =~= texts(v@));
                set_blacklist_url(&mut self.inner, Some(blacklist));
            },
            None => {
                set_blacklist_url(&mut self.inner, None);
            },
        }
        self
    }

    /// Sets up a scheduled job: a scrape where that is asked for, else a crawl.
    pub fn with_cron(&mut self, cron_str: String, cron_type: Option<String>) -> (r: &Self)
        ensures
            *r == *final(self),
            final(self)@ == old(self)@.with_site(
                (SiteState {
                    cron_str: cron_str@,
                    cron_type: if cron_type matches Some(t) && t@ == "scrape"@ {
                        CronType::Scrape
                    } else {
                        CronType::Crawl
                    },
                    ..old(self)@.site
                }),
            ),
    {
        proof {
            reveal_strlit("scrape");
        }
        let scrape = match &cron_type {
            Some(t) => same_text(&chars_of(t.as_str()), &chars_of("scrape")),
            None => false,
        };
        let kind = if scrape {
            CronType::Scrape
        } else {
            CronType::Crawl
        };
        set_cron(&mut self.inner, cron_str.as_str(), kind);
        self
    }

    /// Sets the time between two requests, in milliseconds.
    pub fn with_delay(&mut self, delay: u32) -> (r: &Self)
        ensures
            *r == *final(self),
            final(self)@ == old(self)@.with_site(
                (SiteState { delay: delay as nat, ..old(self)@.site }),
            ),
    {
        set_delay(&mut self.inner, delay as u64);
        self
    }

    /// Sets the proxies of the requests.
    pub fn with_proxies(&mut self, proxies: Option<Vec<String>>) -> (r: &Self)
        ensures
            *r == *final(self),
            final(self)@ == old(self)@.with_site(
                (SiteState {
                    proxies: match proxies {
                        Some(list) => Some(texts(list@)),
                        None => None,
                    },
                    ..old(self)@.site
                }),
            ),
    {
        set_proxies(&mut self.inner, proxies);
        self
    }

    /// Builds the site anew from its settings; it holds what it held.
    pub fn build(&mut self) -> (r: &Self)
        ensures
            *r == *final(self),
            final(self)@ == old(self)@,
    {
        match site_build(&self.inner) {
            Ok(built) => {
                self.inner = built;
            },
            Err(_) => {},
        }
        self
    }
}

} // verus!
