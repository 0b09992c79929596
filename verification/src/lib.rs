//! The core of Node bindings to the `spider` web crawler: websites to crawl, the tasks
//! that follow a crawl, and the dataset that a caller collects on the way.
//!
//! A [`website::Website`] holds the site of the crawler, the tables of registered tasks
//! and the dataset. Crawls, scrapes and scheduled jobs are [`session::Session`]s: the
//! library decides what is done next, and the embedding program does it and reports
//! back. What holds of all of it together is stated in [`laws`], what the operations do in
//! terms of what goes in and comes out in [`properties`], and what each call gives in
//! [`operations`].
use vstd::prelude::*;

pub mod budget;
pub mod cron;
pub mod handles;
pub mod headers;
pub mod json;
pub mod laws;
pub mod operations;
pub mod properties;
pub mod record;
pub mod session;
pub mod site;
pub mod storage;
pub mod text;
pub mod website;

pub use crate::cron::Cron;
pub use crate::website::Website;

verus! {

} // verus!
