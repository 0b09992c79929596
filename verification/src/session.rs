//! Sessions: the steps of a crawl, a scrape or a scheduled job, one decision at a time.
use vstd::prelude::*;

use crate::cron::Cron;

verus! {

/// How the site is worked through.
#[derive(Debug, Clone, Copy, PartialEq, Eq, Structural)]
pub enum Method {
    /// Crawl, rendered in a browser.
    Crawl,
    /// Crawl over plain HTTP.
    CrawlRaw,
    /// Scrape, rendered in a browser.
    Scrape,
    /// Scrape over plain HTTP.
    ScrapeRaw,
}

/// The main step of a session.
#[derive(Debug, Clone, Copy, PartialEq, Eq, Structural)]
pub enum Work {
    /// Work through the site and wait for the end.
    Run(Method),
    /// Work through a copy of the site in a task of its own.
    Spawn(Method),
    /// Hand the site to a scheduler.
    Schedule,
}

/// Where a session stands.
#[derive(Debug, Clone, Copy, PartialEq, Eq, Structural)]
pub enum Session {
    /// A listener is to be started first.
    Opening { work: Work },
    /// The main step is to be taken; the listener runs, where there is one.
    Working { work: Work, listener: Option<u64> },
    /// All is done.
    Finished,
    /// The job is scheduled.
    Scheduled { cron: Cron },
}

/// What is to be done next.
#[derive(Debug, Clone, Copy, PartialEq, Eq, Structural)]
pub enum Action {
    /// Subscribe to the site and start a listener.
    Listen,
    /// Copy the site, subscribe to the copy and start a listener.
    ListenToCopy,
    /// Work through the site and wait for the end.
    Run(Method),
    /// Work through the copy in a task of its own.
    Spawn(Method),
    /// Hand the site to a scheduler.
    Schedule,
    /// Nothing.
    Rest,
}

/// What has been done.
#[derive(Debug, Clone, Copy, PartialEq, Eq, Structural)]
pub enum Event {
    /// The listener with this handle runs.
    Listening(u64),
    /// The site has been worked through.
    Completed,
    /// The task with this handle works through the copy.
    Spawned(u64),
    /// The runner with this number has the job.
    Scheduled(u64),
}

/// An option that is on only where it is given and true.
pub open spec fn is_on(option: Option<bool>) -> bool {
    option == Some(true)
}

/// The method of a crawl.
pub open spec fn crawl_method(headless: Option<bool>) -> Method {
    if is_on(headless) {
        Method::Crawl
    } else {
        Method::CrawlRaw
    }
}

/// The method of a scrape.
pub open spec fn scrape_method(headless: Option<bool>) -> Method {
    if is_on(headless) {
        Method::Scrape
    } else {
        Method::ScrapeRaw
    }
}

/// How a session begins: with a listener where the caller listens, and in the
/// background only then.
pub open spec fn opening(listening: bool, background: Option<bool>, method: Method) -> Session {
    if listening {
        Session::Opening {
            work: if is_on(background) {
                Work::Spawn(method)
            } else {
                Work::Run(method)
            },
        }
    } else {
        Session::Working { work: Work::Run(method), listener: None }
    }
}

/// How a scheduled job begins.
pub open spec fn cron_opening(listening: bool) -> Session {
    if listening {
        Session::Opening { work: Work::Schedule }
    } else {
        Session::Working { work: Work::Schedule, listener: None }
    }
}

impl Session {
    /// Whether the session can stand where it stands: only a session with a listener
    /// works in a task of its own.
    pub open spec fn valid(self) -> bool {
        self matches Session::Working { work, listener } ==> (work is Spawn ==> listener is Some)
    }

    /// What the session does next.
    pub open spec fn next_action(self) -> Action {
        match self {
            Session::Opening { work } => if work is Spawn {
                Action::ListenToCopy
            } else {
                Action::Listen
            },
            Session::Working { work: Work::Run(method), .. } => Action::Run(method),
            Session::Working { work: Work::Spawn(method), .. } => Action::Spawn(method),
            Session::Working { work: Work::Schedule, .. } => Action::Schedule,
            Session::Finished => Action::Rest,
            Session::Scheduled { .. } => Action::Rest,
        }
    }

    /// Whether an event reports that the next action has been taken.
    pub open spec fn expects(self, event: Event) -> bool {
        match self.next_action() {
            Action::Listen => event is Listening,
            Action::ListenToCopy => event is Listening,
            Action::Run(_) => event is Completed,
            Action::Spawn(_) => event is Spawned,
            Action::Schedule => event is Scheduled,
            Action::Rest => false,
        }
    }

    /// Where the session stands after an event that it expects.
    pub open spec fn after(self, event: Event) -> Session {
        match (self, event) {
            (Session::Opening { work }, Event::Listening(handle)) => Session::Working {
                work,
                listener: Some(handle),
            },
            (Session::Working { listener, .. }, Event::Scheduled(runner)) => Session::Scheduled {
                cron: Cron { inner: runner, cron_handle: listener },
            },
            _ => Session::Finished,
        }
    }

    /// The handle that an event registers as a crawl.
    pub open spec fn new_crawl(self, event: Event) -> Option<u64> {
        match (self, event) {
            (Session::Working { work: Work::Spawn(_), .. }, Event::Spawned(handle)) => Some(handle),
            _ => None,
        }
    }

    /// The handle that an event registers as a subscription.
    pub open spec fn new_subscription(self, event: Event) -> Option<u64> {
        match self {
            Session::Working { work: Work::Run(_), listener } => listener,
            Session::Working { work: Work::Spawn(_), listener } => listener,
            _ => None,
        }
    }

    /// What is to be done next.
    pub fn action(&self) -> (r: Action)
        ensures
            r == self.next_action(),
    {
        match *self {
            Session::Opening { work } => match work {
                Work::Spawn(_) => Action::ListenToCopy,
                Work::Run(_) => Action::Listen,
                Work::Schedule => Action::Listen,
            },
            Session::Working { work, .. } => match work {
                Work::Run(method) => Action::Run(method),
                Work::Spawn(method) => Action::Spawn(method),
                Work::Schedule => Action::Schedule,
            },
            Session::Finished => Action::Rest,
            Session::Scheduled { .. } => Action::Rest,
        }
    }
}

/// Whether an option is given and true.
fn option_on(option: Option<bool>) -> (r: bool)
    ensures
        r == is_on(option),
{
    match option {
        Some(on) => on,
        None => false,
    }
}

/// Begins a crawl.
pub fn crawl_session(listening: bool, background: Option<bool>, headless: Option<bool>) -> (r:
    Session)
    ensures
        r == opening(listening, background, crawl_method(headless)),
        r.valid(),
{
    let method = if option_on(headless) {
        Method::Crawl
    } else {
        Method::CrawlRaw
    };
    open_session(listening, background, method)
}

/// Begins a scrape.
pub fn scrape_session(listening: bool, background: Option<bool>, headless: Option<bool>) -> (r:
    Session)
    ensures
        r == opening(listening, background, scrape_method(headless)),
        r.valid(),
{
    let method = if option_on(headless) {
        Method::Scrape
    } else {
        Method::ScrapeRaw
    };
    open_session(listening, background, method)
}

/// Begins a scheduled job.
pub fn cron_session(listening: bool) -> (r: Session)
    ensures
        r == cron_opening(listening),
        r.valid(),
{
    if listening {
        Session::Opening { work: Work::Schedule }
    } else {
        Session::Working { work: Work::Schedule, listener: None }
    }
}

/// Begins a session that works through the site by a method.
fn open_session(listening: bool, background: Option<bool>, method: Method) -> (r: Session)
    ensures
        r == opening(listening, background, method),
        r.valid(),
{
    if listening {
        let work = if option_on(background) {
            Work::Spawn(method)
        } else {
            Work::Run(method)
        };
        Session::Opening { work }
    } else {
        Session::Working { work: Work::Run(method), listener: None }
    }
}

/// How many pages a subscription can fall behind, given the buffer of the process.
pub fn subscription_capacity(buffer: usize) -> (r: usize)
    ensures
        r == buffer / 2,
{
    buffer / 2
}

} // verus!
