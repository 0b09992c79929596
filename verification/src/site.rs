//! The site that the crawler works on: what it holds, and what each call does to it.
use vstd::prelude::*;

use spider::website::Website as Site;
use spider::page::Page;

use crate::headers::header_entries;

verus! {

/// The site of the `spider` crate: a collection of visited links and stored pages,
/// with the settings of the crawl.
#[verifier::external_type_specification]
#[verifier::external_body]
pub struct ExSite(Site);

/// A stored page of the `spider` crate.
#[verifier::external_type_specification]
#[verifier::external_body]
pub struct ExPage(spider::page::Page);

/// A short string of the `compact_str` crate.
#[verifier::external_body]
pub struct CompactText {
    text: compact_str::CompactString,
}

/// The characters that a compact string holds.
pub uninterp spec fn compact_chars(text: CompactText) -> Seq<char>;

/// What a scheduled job does with the site.
#[derive(Debug, Clone, Copy, PartialEq, Eq, Structural)]
pub enum CronType {
    Crawl,
    Scrape,
}

/// What a site holds.
pub struct SiteState {
    /// The address that the crawl starts from.
    pub url: Seq<char>,
    /// Whether the address is a URL that can be crawled.
    pub crawlable: bool,
    /// The name of the crawl status.
    pub status: Seq<char>,
    /// Whether the site has been told to stop.
    pub stopped: bool,
    /// The visited links.
    pub links: Set<Seq<char>>,
    /// The stored pages, in the order in which they were stored.
    pub pages: Seq<Page>,
    pub user_agent: Option<Seq<char>>,
    pub respect_robots_txt: bool,
    pub subdomains: bool,
    pub tld: bool,
    pub http2_prior_knowledge: bool,
    /// The longest time to wait for a response, in milliseconds.
    pub request_timeout: Option<nat>,
    /// The time between two requests, in milliseconds.
    pub delay: nat,
    /// The names of the headers in small letters, with their values.
    pub headers: Option<Map<Seq<char>, Seq<Seq<char>>>>,
    /// The host names of the other domains that belong to the crawl, in small letters.
    pub external_domains: Set<Seq<char>>,
    /// The limits by path in small letters.
    pub budget: Option<Map<Seq<char>, u32>>,
    pub blacklist_url: Option<Seq<Seq<char>>>,
    pub proxies: Option<Seq<Seq<char>>>,
    pub cron_str: Seq<char>,
    pub cron_type: CronType,
}

/// What a site of the `spider` crate holds.
pub uninterp spec fn site_state(site: Site) -> SiteState;

/// The host name, in small letters, of what `Url::parse` makes of a text: nothing
/// where the text is not a URL, empty where the URL has no host.
pub uninterp spec fn parsed_host(text: Seq<char>) -> Option<Seq<char>>;

/// Whether a character is white space.
pub open spec fn is_white_space(c: char) -> bool {
    ||| 9 <= c as int <= 13
    ||| c == ' '
    ||| c == '\u{85}'
    ||| c == '\u{a0}'
    ||| c == '\u{1680}'
    ||| 0x2000 <= c as int <= 0x200a
    ||| c == '\u{2028}'
    ||| c == '\u{2029}'
    ||| c == '\u{202f}'
    ||| c == '\u{205f}'
    ||| c == '\u{3000}'
}

/// A text without the white space that it starts with.
pub open spec fn trimmed_start(text: Seq<char>) -> Seq<char>
    decreases text.len(),
{
    if text.len() > 0 && is_white_space(text[0]) {
        trimmed_start(text.skip(1))
    } else {
        text
    }
}

/// A text without the white space that it ends with.
pub open spec fn trimmed_end(text: Seq<char>) -> Seq<char>
    decreases text.len(),
{
    if text.len() > 0 && is_white_space(text.last()) {
        trimmed_end(text.drop_last())
    } else {
        text
    }
}

/// A text without the white space around it, where it starts or ends with a space.
pub open spec fn unpadded(text: Seq<char>) -> Seq<char> {
    if text.len() > 0 && (text[0] == ' ' || text.last() == ' ') {
        trimmed_end(trimmed_start(text))
    } else {
        text
    }
}

/// The address that a crawl of `url` starts from: a scheme is put before a text that
/// does not start with one.
pub open spec fn start_url(url: Seq<char>) -> Seq<char> {
    if "http"@.is_prefix_of(unpadded(url)) {
        unpadded(url)
    } else {
        "https://"@ + unpadded(url)
    }
}

/// What a new site holds: no links, no pages, and the crawler's own settings.
pub open spec fn new_site_state(url: Seq<char>, crawlable: bool) -> SiteState {
    SiteState {
        url: start_url(url),
        crawlable,
        status: "Start"@,
        stopped: false,
        links: Set::empty(),
        pages: Seq::empty(),
        user_agent: None,
        respect_robots_txt: false,
        subdomains: false,
        tld: false,
        http2_prior_knowledge: false,
        request_timeout: Some(15000),
        delay: 0,
        headers: None,
        external_domains: Set::empty(),
        budget: None,
        blacklist_url: None,
        proxies: None,
        cron_str: Seq::empty(),
        cron_type: CronType::Crawl,
    }
}

/// The texts of a list of strings.
pub open spec fn texts(list: Seq<String>) -> Seq<Seq<char>> {
    list.map_values(|s: String| s@)
}

/// The texts of a list of compact strings.
pub open spec fn compact_texts(list: Seq<CompactText>) -> Seq<Seq<char>> {
    list.map_values(|s: CompactText| compact_chars(s))
}

/// The host name under which a domain joins the crawl: `*` stands for every domain,
/// and a text that is not a URL for none.
pub open spec fn domain_host(domain: Seq<char>) -> Option<Seq<char>> {
    if domain == "*"@ {
        Some(domain)
    } else {
        parsed_host(domain)
    }
}

/// The host names under which the domains of a list join the crawl.
pub open spec fn domain_hosts(domains: Seq<Seq<char>>) -> Set<Seq<char>> {
    Set::new(
        |host: Seq<char>|
            exists|i: int| 0 <= i < domains.len() && domain_host(#[trigger] domains[i]) == Some(host),
    )
}

/// `CompactString::new`: holds the text that it is given.
#[verifier::external_body]
pub(crate) fn compact(text: &str) -> (r: CompactText)
    ensures
        compact_chars(r) == text@,
{
    CompactText { text: compact_str::CompactString::new(text) }
}

/// `Website::new`: a site with nothing visited and the default settings; white space
/// around an address padded with spaces is dropped, and `https://` is put before an
/// address that does not start with `http`.
#[verifier::external_body]
pub(crate) fn new_site(url: &str) -> (site: Site)
    ensures
        site_state(site) == new_site_state(url@, parsed_host(start_url(url@)) is Some),
{
    Site::new(url)
}

/// `Website::get_status`: the name of the status, as its `Display` gives it.
#[verifier::external_body]
pub(crate) fn site_status(site: &Site) -> (r: String)
    ensures
        r@ == site_state(*site).status,
{
    site.get_status().to_string()
}

/// `Website::get_url`: the address of the site.
#[verifier::external_body]
pub(crate) fn site_url(site: &Site) -> (r: String)
    ensures
        r@ == site_state(*site).url,
{
    site.get_url().inner().to_string()
}

/// `Website::size`: the number of visited links.
#[verifier::external_body]
pub(crate) fn site_size(site: &Site) -> (r: usize)
    ensures
        r == site_state(*site).links.len(),
{
    site.size()
}

/// `Website::get_links`: each visited link once, in no particular order.
#[verifier::external_body]
pub(crate) fn site_links(site: &Site) -> (r: Vec<String>)
    ensures
        texts(r@).no_duplicates(),
        texts(r@).to_set() == site_state(*site).links,
{
    site.get_links().iter().map(|x| x.as_ref().to_string()).collect()
}

/// `Website::drain_links`: hands out each visited link once, in no particular order,
/// and leaves none.
#[verifier::external_body]
pub(crate) fn site_drain_links(site: &mut Site) -> (r: Vec<String>)
    ensures
        texts(r@).no_duplicates(),
        texts(r@).to_set() == site_state(*old(site)).links,
        site_state(*final(site)) == (SiteState { links: Set::empty(), ..site_state(*old(site)) }),
{
    site.drain_links().map(|x| x.as_ref().to_string()).collect()
}

/// `Website::clear`: drops the visited links and the stored pages.
#[verifier::external_body]
pub(crate) fn site_clear(site: &mut Site)
    ensures
        site_state(*final(site)) == (SiteState {
            links: Set::empty(),
            pages: Seq::empty(),
            ..site_state(*old(site))
        }),
{
    site.clear();
}

/// `Website::get_pages`: the stored pages, where any were stored.
#[verifier::external_body]
pub(crate) fn site_pages(site: &Site) -> (r: Option<&Vec<Page>>)
    ensures
        r matches Some(pages) ==> pages@ == site_state(*site).pages,
        r is None ==> site_state(*site).pages.len() == 0,
{
    site.get_pages().map(|pages| pages.as_ref())
}

/// `Website::stop`: marks the site as stopped.
#[verifier::external_body]
pub(crate) fn site_stop(site: &mut Site)
    ensures
        site_state(*final(site)) == (SiteState { stopped: true, ..site_state(*old(site)) }),
{
    site.stop();
}

/// `Website::build`: a copy of the site, as a success where its address is a URL.
#[verifier::external_body]
pub(crate) fn site_build(site: &Site) -> (r: Result<Site, Site>)
    ensures
        r is Ok == site_state(*site).crawlable,
        r matches Ok(built) ==> site_state(built) == site_state(*site),
        r matches Err(built) ==> site_state(built) == site_state(*site),
{
    site.build()
}

/// `Website::with_headers`: replaces the headers of the requests, or drops them.
#[verifier::external_body]
pub(crate) fn set_headers(site: &mut Site, headers: Option<spider::reqwest::header::HeaderMap>)
    ensures
        site_state(*final(site)) == (SiteState {
            headers: match headers {
                Some(h) => Some(header_entries(h)),
                None => None,
            },
            ..site_state(*old(site))
        }),
{
    site.with_headers(headers);
}

/// `Configuration::with_user_agent`: replaces the user agent, or drops it.
#[verifier::external_body]
pub(crate) fn set_user_agent(site: &mut Site, user_agent: Option<&str>)
    ensures
        site_state(*final(site)) == (SiteState {
            user_agent: match user_agent {
                Some(agent) => Some(agent@),
                None => None,
            },
            ..site_state(*old(site))
        }),
{
    site.configuration.with_user_agent(user_agent);
}

/// `Configuration::with_respect_robots_txt`: sets the flag.
#[verifier::external_body]
pub(crate) fn set_respect_robots_txt(site: &mut Site, respect_robots_txt: bool)
    ensures
        site_state(*final(site)) == (SiteState { respect_robots_txt, ..site_state(*old(site)) }),
{
    site.configuration.with_respect_robots_txt(respect_robots_txt);
}

/// `Configuration::with_subdomains`: sets the flag.
#[verifier::external_body]
pub(crate) fn set_subdomains(site: &mut Site, subdomains: bool)
    ensures
        site_state(*final(site)) == (SiteState { subdomains, ..site_state(*old(site)) }),
{
    site.configuration.with_subdomains(subdomains);
}

/// `Configuration::with_tld`: sets the flag.
#[verifier::external_body]
pub(crate) fn set_tld(site: &mut Site, tld: bool)
    ensures
        site_state(*final(site)) == (SiteState { tld, ..site_state(*old(site)) }),
{
    site.configuration.with_tld(tld);
}

/// `Configuration::with_http2_prior_knowledge`: sets the flag.
#[verifier::external_body]
pub(crate) fn set_http2_prior_knowledge(site: &mut Site, http2_prior_knowledge: bool)
    ensures
        site_state(*final(site)) == (SiteState {
            http2_prior_knowledge,
            ..site_state(*old(site))
        }),
{
    site.configuration.with_http2_prior_knowledge(http2_prior_knowledge);
}

/// `Configuration::with_request_timeout`: replaces the timeout by one of as many
/// milliseconds, or drops it.
#[verifier::external_body]
pub(crate) fn set_request_timeout(site: &mut Site, millis: Option<u32>)
    ensures
        site_state(*final(site)) == (SiteState {
            request_timeout: match millis {
                Some(ms) => Some(ms as nat),
                None => None,
            },
            ..site_state(*old(site))
        }),
{
    let timeout = millis.map(|ms| std::time::Duration::from_millis(ms.into()));
    site.configuration.with_request_timeout(timeout);
}

/// `Configuration::with_delay`: replaces the delay by one of as many milliseconds.
#[verifier::external_body]
pub(crate) fn set_delay(site: &mut Site, millis: u64)
    ensures
        site_state(*final(site)) == (SiteState { delay: millis as nat, ..site_state(*old(site)) }),
{
    site.configuration.with_delay(millis);
}

/// `Website::with_external_domains`: replaces the external domains by the host names
/// of those that are URLs, and `*` by itself; without a list there are none.
#[verifier::external_body]
pub(crate) fn set_external_domains(site: &mut Site, domains: Option<Vec<String>>)
    ensures
        site_state(*final(site)) == (SiteState {
            external_domains: match domains {
                Some(list) => domain_hosts(texts(list@)),
                None => Set::empty(),
            },
            ..site_state(*old(site))
        }),
{
    site.with_external_domains(domains.map(|list| list.into_iter()));
}

/// `Configuration::with_blacklist_url`: replaces the list of patterns, or drops it.
#[verifier::external_body]
pub(crate) fn set_blacklist_url(site: &mut Site, list: Option<Vec<CompactText>>)
    ensures
        site_state(*final(site)) == (SiteState {
            blacklist_url: match list {
                Some(patterns) => Some(compact_texts(patterns@)),
                None => None,
            },
            ..site_state(*old(site))
        }),
{
    let patterns = list.map(|patterns| patterns.into_iter().map(|p| p.text).collect::<Vec<_>>());
    site.configuration.with_blacklist_url(patterns);
}

/// `Website::with_cron`: replaces the schedule and what the job does.
#[verifier::external_body]
pub(crate) fn set_cron(site: &mut Site, cron_str: &str, cron_type: CronType)
    ensures
        site_state(*final(site)) == (SiteState {
            cron_str: cron_str@,
            cron_type,
            ..site_state(*old(site))
        }),
{
    let kind = match cron_type {
        CronType::Crawl => spider::website::CronType::Crawl,
        CronType::Scrape => spider::website::CronType::Scrape,
    };
    site.with_cron(cron_str, kind);
}

/// `Configuration::with_proxies`: replaces the list of proxies, or drops it.
#[verifier::external_body]
pub(crate) fn set_proxies(site: &mut Site, proxies: Option<Vec<String>>)
    ensures
        site_state(*final(site)) == (SiteState {
            proxies: match proxies {
                Some(list) => Some(texts(list@)),
                None => None,
            },
            ..site_state(*old(site))
        }),
{
    site.configuration.with_proxies(proxies);
}

} // verus!
