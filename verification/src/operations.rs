//! What each call gives: for every outcome that a call can have, how it relates to the
//! arguments of the call and to the state before it.
use vstd::prelude::*;

use crate::budget::limits_map;
use crate::cron::{Cron, CronStop};
use crate::handles::{
    ascending_ids, entries_left, handles_of, lemma_following_id, released_handles, Released,
};
use crate::headers::{
    collect_headers, header_entries, headers_of, valid_header_name, valid_header_value,
    HeaderField, HeaderOverflow,
};
use crate::laws::{law_record_is_json, law_size_counts_links, law_store_adds_a_line};
use crate::properties::{
    all_blank, denotes, denotes_natural, field_text, has_solid_ends, holds_no_scheme, ids_are_left,
    is_padded, joins_as, law_budget_takes_the_last_word, law_crawls_start_at_the_address,
    law_decimal_denotes_the_number, law_default_file_is_named_by_the_address,
    law_domains_join_by_their_hosts, law_export_to_a_directory, law_export_to_a_file,
    law_few_fields_fit, law_headers_come_from_fields, law_headers_grow_field_by_field,
    law_limits_come_from_entries, law_new_handles_go_to_the_end, law_release_of_an_unknown_id,
    law_release_takes_out_the_entry, law_removal_keeps_what_does_not_match,
    law_removal_takes_out_the_first_occurrence, law_room_is_left_below_the_highest_id,
    law_signed_decimal_denotes_the_number, law_store_appends_the_record,
    law_stored_object_reads_back, law_texts_one_for_one, law_valid_fields_become_headers,
    line_tells, occurs_at, with_scheme,
};
use crate::record::{lines, object_bytes, object_to_u8, Object, RecordError};
use crate::session::{
    crawl_session, cron_session, scrape_session, subscription_capacity, Action, Event, Method,
    Session, Work,
};
use crate::site::{domain_hosts, site_state, texts, CronType, SiteState};
use crate::storage::{
    export_target, Export, ExportAction, ExportProgress, ExportStep, ExportTarget,
};
use crate::text::{
    chars_of, decimal_chars, has_char, lower, remove_all, same_text, signed_decimal_chars,
    string_of,
};
use crate::website::{NPage, Website, WebsiteState};

use spider::reqwest::header::HeaderMap;
use spider::website::Website as Site;

verus! {

/// A number is written as its numeral.
pub proof fn law_of_decimal_chars(n: u32, r: Vec<char>)
    requires
        call_ensures(decimal_chars, (n,), r),
    ensures
        denotes_natural(r@, n as int),
{
    law_decimal_denotes_the_number(n as nat);
}

/// An integer is written as its numeral.
pub proof fn law_of_signed_decimal_chars(n: i32, r: Vec<char>)
    requires
        call_ensures(signed_decimal_chars, (n,), r),
    ensures
        denotes(r@, n as int),
{
    law_signed_decimal_denotes_the_number(n as int);
}

/// Texts and their characters are the same both ways.
pub proof fn law_of_characters(s: &str, chars: Vec<char>, text: String)
    requires
        call_ensures(chars_of, (s,), chars),
        call_ensures(string_of, (&chars,), text),
    ensures
        chars@ == s@,
        text@ == s@,
{
}

/// A character is found exactly where it stands, and texts are the same exactly where
/// their characters are.
pub proof fn law_of_comparisons(a: &Vec<char>, b: &Vec<char>, c: char, found: bool, same: bool)
    requires
        call_ensures(has_char, (a, c), found),
        call_ensures(same_text, (a, b), same),
    ensures
        found == (exists|i: int| 0 <= i < a@.len() && a@[i] == c),
        same == (a@.len() == b@.len() && forall|i: int| 0 <= i < a@.len() ==> a@[i] == b@[i]),
{
    if a@.len() == b@.len() && forall|i: int| 0 <= i < a@.len() ==> a@[i] == b@[i] {
        assert(a@ =~= b@);
    }
}

/// Removing a pattern keeps a text without it, and else takes out the first occurrence
/// and goes on behind it.
pub proof fn law_of_remove_all(
    text: &Vec<char>,
    pattern: &Vec<char>,
    at: int,
    r: Vec<char>,
    rest: &Vec<char>,
    of_rest: Vec<char>,
)
    requires
        pattern@.len() > 0,
        call_ensures(remove_all, (text, pattern), r),
        call_ensures(remove_all, (rest, pattern), of_rest),
    ensures
        (forall|i: int| !#[trigger] occurs_at(text@, pattern@, i)) ==> r@ == text@,
        occurs_at(text@, pattern@, at) && (forall|i: int|
            i < at ==> !#[trigger] occurs_at(text@, pattern@, i)) && rest@ == text@.skip(
            at + pattern@.len(),
        ) ==> r@ == text@.take(at) + of_rest@,
{
    if forall|i: int| !#[trigger] occurs_at(text@, pattern@, i) {
        law_removal_keeps_what_does_not_match(text@, pattern@);
    }
    if occurs_at(text@, pattern@, at) && (forall|i: int|
        i < at ==> !#[trigger] occurs_at(text@, pattern@, i)) {
        law_removal_takes_out_the_first_occurrence(text@, pattern@, at);
    }
}

/// An object whose keys can be listed always gives a record: one line of JSON from which
/// its keys and values are read back, and a line feed exactly where the dataset holds
/// something and its size and one more are below the number of links.
pub proof fn law_of_object_to_u8(
    obj: &Object,
    collected_size: usize,
    link_count: usize,
    r: Result<Vec<u8>, RecordError>,
)
    requires
        call_ensures(object_to_u8, (obj, collected_size, link_count), r),
    ensures
        obj.properties is None <==> r is Err,
        obj.properties matches Some(ps) ==> {
            let ends = collected_size > 0 && collected_size + 1 < link_count;
            let record = r->Ok_0@;
            let line = if ends {
                record.drop_last()
            } else {
                record
            };
            &&& ends ==> record.len() > 0 && record.last() == 10u8
            &&& !line.contains(10u8)
            &&& line == object_bytes(ps@)
            &&& line_tells(line, ps@)
        },
{
    if let Some(ps) = obj.properties {
        let empty = Seq::<u8>::empty();
        law_record_is_json(ps@, collected_size as nat, link_count as nat);
        law_stored_object_reads_back(empty, ps@, 0);
        law_store_adds_a_line(empty, ps@, 0);
        if collected_size > 0 && collected_size + 1 < link_count {
            assert(r->Ok_0@.drop_last() =~= object_bytes(ps@));
        }
    }
}

/// Storing an object keeps what the dataset holds and adds one line, from which the keys
/// and values of the object are read back. Nothing but the dataset changes. An object
/// whose keys cannot be listed is refused, and changes nothing.
pub proof fn law_of_push_data(w: &mut Website, obj: &Object, r: Result<(), RecordError>)
    requires
        call_ensures(Website::push_data, (w, obj), r),
    ensures
        obj.properties is None ==> r is Err && final(w)@ == old(w)@,
        obj.properties matches Some(ps) ==> {
            let before = old(w)@.data;
            let after = final(w)@.data;
            let line = lines(after).last();
            &&& r is Ok
            &&& final(w)@ == (WebsiteState { data: after, ..old(w)@ })
            &&& after == before + (if before.len() > 0 && before.last() != 10u8 {
                seq![10u8]
            } else {
                Seq::empty()
            }) + line + (if before.len() > 0 && before.len() + 1 < old(w)@.site.links.len() {
                seq![10u8]
            } else {
                Seq::empty()
            })
            &&& lines(after) == lines(before).push(line)
            &&& line_tells(line, ps@)
        },
{
    if let Some(ps) = obj.properties {
        let before = old(w)@.data;
        let links = old(w)@.site.links.len();
        law_store_adds_a_line(before, ps@, links);
        law_store_appends_the_record(before, ps@, links);
        law_stored_object_reads_back(before, ps@, links);
    }
}

/// The dataset is read as it is.
pub proof fn law_of_read_data(w: &Website, r: &Vec<u8>)
    requires
        call_ensures(Website::read_data, (w,), r),
    ensures
        r@ == w@.data,
{
}

/// An export writes the whole dataset. A path with a dot in it is the file, in a directory
/// that is created; another path is a directory that is created, and gets the extension to
/// name the file.
pub proof fn law_of_export_to_a_path(
    w: &Website,
    path: String,
    above: Seq<char>,
    name: Seq<char>,
    r: Export<'_>,
)
    requires
        call_ensures(Website::export_jsonl_data, (w, Some(path)), r),
        !name.contains('/'),
    ensures
        r.data@ == w@.data,
        path@.contains('.') ==> r.target.file@ == path@,
        path@.contains('.') && path@ == above + seq!['/'] + name ==> r.target.directory@ == above,
        path@.contains('.') && path@ == name ==> r.target.directory@ == Seq::<char>::empty(),
        !path@.contains('.') ==> r.target.directory@ == path@ && r.target.file@ == path@ + seq![
            '.',
            'j',
            's',
            'o',
            'n',
            'l',
        ],
{
    law_export_to_a_file(above, name);
    if !path@.contains('.') {
        law_export_to_a_directory(path@);
    }
}

/// An export without a path writes the whole dataset to a file in `./storage` that is
/// named by the whole address of the site behind its scheme.
pub proof fn law_of_export_by_default(w: &Website, rest: Seq<char>, r: Export<'_>)
    requires
        call_ensures(Website::export_jsonl_data, (w, None::<String>), r),
        holds_no_scheme(rest),
    ensures
        r.data@ == w@.data,
        r.target.directory@ == "./storage"@,
        w@.site.url == "http://"@ + rest || w@.site.url == "https://"@ + rest || w@.site.url
            == rest ==> r.target.file@ == "./storage/"@ + rest + "jsonl"@,
{
    law_default_file_is_named_by_the_address(rest);
}

/// The target of an export, by path and by address.
pub proof fn law_of_export_target(
    path: String,
    above: Seq<char>,
    name: Seq<char>,
    url: &str,
    rest: Seq<char>,
    by_path: ExportTarget,
    by_default: ExportTarget,
)
    requires
        call_ensures(export_target, (Some(path), url), by_path),
        call_ensures(export_target, (None::<String>, url), by_default),
        !name.contains('/'),
        holds_no_scheme(rest),
    ensures
        path@.contains('.') ==> by_path.file@ == path@,
        path@.contains('.') && path@ == above + seq!['/'] + name ==> by_path.directory@ == above,
        path@.contains('.') && path@ == name ==> by_path.directory@ == Seq::<char>::empty(),
        !path@.contains('.') ==> by_path.directory@ == path@ && by_path.file@ == path@ + seq![
            '.',
            'j',
            's',
            'o',
            'n',
            'l',
        ],
        by_default.directory@ == "./storage"@,
        url@ == "http://"@ + rest || url@ == "https://"@ + rest || url@ == rest
            ==> by_default.file@ == "./storage/"@ + rest + "jsonl"@,
{
    law_export_to_a_file(above, name);
    if !path@.contains('.') {
        law_export_to_a_directory(path@);
    }
    law_default_file_is_named_by_the_address(rest);
}

/// The steps of an export: the directory, the file, the data, each on its part, and the
/// first error ends it.
pub proof fn law_of_export_steps<E>(
    export: &Export<'_>,
    outcome: Result<(), E>,
    first: ExportStep,
    directory: ExportAction<'_>,
    file: ExportAction<'_>,
    data: ExportAction<'_>,
    after_directory: ExportProgress<E>,
    after_file: ExportProgress<E>,
    after_data: ExportProgress<E>,
)
    requires
        call_ensures(ExportStep::first, (), first),
        call_ensures(Export::action, (export, ExportStep::CreateDirectory), directory),
        call_ensures(Export::action, (export, ExportStep::CreateFile), file),
        call_ensures(Export::action, (export, ExportStep::WriteData), data),
        call_ensures(ExportStep::after::<E>, (ExportStep::CreateDirectory, outcome), after_directory),
        call_ensures(ExportStep::after::<E>, (ExportStep::CreateFile, outcome), after_file),
        call_ensures(ExportStep::after::<E>, (ExportStep::WriteData, outcome), after_data),
    ensures
        first == ExportStep::CreateDirectory,
        directory is CreateDirectory && directory->CreateDirectory_0@ == export.target.directory@,
        file is CreateFile && file->CreateFile_0@ == export.target.file@,
        data is WriteData && data->WriteData_0@ == export.data@,
        outcome matches Err(e) ==> after_directory == ExportProgress::<E>::Done(Err(e))
            && after_file == ExportProgress::<E>::Done(Err(e)) && after_data == ExportProgress::<
            E,
        >::Done(Err(e)),
        outcome is Ok ==> after_directory == ExportProgress::<E>::Next(ExportStep::CreateFile)
            && after_file == ExportProgress::<E>::Next(ExportStep::WriteData) && after_data
            == ExportProgress::<E>::Done(Ok(())),
{
}

/// A new website has nothing in it, and its crawls start at the address, without the white
/// space around it where it is padded with spaces, and with `https://` before it unless it
/// starts with `http`.
pub proof fn law_of_new(
    url: String,
    raw_content: Option<bool>,
    before: Seq<char>,
    core: Seq<char>,
    behind: Seq<char>,
    r: Website,
)
    requires
        call_ensures(Website::new, (url, raw_content), r),
    ensures
        r@.subscriptions.len() == 0,
        r@.crawls.len() == 0,
        r@.data.len() == 0,
        r@.raw_content == (raw_content == Some(true)),
        r@.site.links == Set::<Seq<char>>::empty(),
        r@.site.pages.len() == 0,
        r@.site.status == "Start"@,
        !r@.site.stopped,
        !is_padded(url@) ==> r@.site.url == with_scheme(url@),
        is_padded(url@) && url@ == before + core + behind && all_blank(before) && all_blank(behind)
            && has_solid_ends(core) ==> r@.site.url == with_scheme(core),
{
    law_crawls_start_at_the_address(before, url@, behind);
    law_crawls_start_at_the_address(before, core, behind);
}

/// A subscription gets the id one above the highest in use, or zero, and its handle goes
/// to the end of the table; nothing else changes.
pub proof fn law_of_subscribe(w: &mut Website, handle: u64, can: bool, id: u32)
    requires
        old(w).wf(),
        call_ensures(Website::can_subscribe, (&*old(w),), can),
        call_ensures(Website::subscribe, (w, handle), id),
    ensures
        can == ids_are_left(old(w)@.subscriptions),
        final(w)@ == (WebsiteState {
            subscriptions: old(w)@.subscriptions.push((id, handle)),
            ..old(w)@
        }),
        old(w)@.subscriptions.len() == 0 ==> id == 0,
        forall|i: int|
            0 <= i < old(w)@.subscriptions.len() ==> (#[trigger] old(w)@.subscriptions[i]).0 < id,
        old(w)@.subscriptions.len() > 0 ==> exists|i: int|
            0 <= i < old(w)@.subscriptions.len() && (#[trigger] old(w)@.subscriptions[i]).0 + 1
                == id,
{
    law_room_is_left_below_the_highest_id(old(w)@.subscriptions);
    lemma_following_id(old(w)@.subscriptions);
}

/// Unsubscribing an id in use aborts its listener and takes out its entry alone; one that
/// is not in use is not found; without an id all listeners are aborted, in their order.
pub proof fn law_of_unsubscribe(w: &mut Website, id: Option<u32>, at: int, r: Released)
    requires
        old(w).wf(),
        call_ensures(Website::unsubscribe, (w, id), r),
    ensures
        final(w)@ == (WebsiteState { subscriptions: final(w)@.subscriptions, ..old(w)@ }),
        ({
            let before = old(w)@.subscriptions;
            let after = final(w)@.subscriptions;
            &&& 0 <= at < before.len() && id == Some(before[at].0) ==> r.found
                && r.aborted@ == seq![before[at].1] && after == before.take(at) + before.skip(
                at + 1,
            )
            &&& id is Some && (forall|i: int|
                0 <= i < before.len() ==> (#[trigger] before[i]).0 != id->0) ==> !r.found
                && r.aborted@.len() == 0 && after == before
            &&& id is None ==> r.found == (before.len() > 0) && after.len() == 0
                && r.aborted@.len() == before.len() && forall|i: int|
                0 <= i < before.len() ==> r.aborted@[i] == (#[trigger] before[i]).1
        }),
{
    lemma_release_law(old(w)@.subscriptions, id, at);
}

proof fn lemma_release_law(before: Seq<(u32, u64)>, id: Option<u32>, at: int)
    requires
        ascending_ids(before),
    ensures
        0 <= at < before.len() && id == Some(before[at].0)
            ==> released_handles(before, id) == seq![before[at].1]
            && entries_left(before, id) == before.take(at) + before.skip(at + 1),
        id is Some && (forall|i: int| 0 <= i < before.len() ==> (#[trigger] before[i]).0
            != id->0) ==> released_handles(before, id) == Seq::<u64>::empty()
            && entries_left(before, id) == before,
        id is None ==> entries_left(before, id).len() == 0
            && released_handles(before, id) == handles_of(before),
{
    if let Some(k) = id {
        if 0 <= at < before.len() && before[at].0 == k {
            law_release_takes_out_the_entry(before, at);
        }
        if forall|i: int| 0 <= i < before.len() ==> (#[trigger] before[i]).0 != k {
            law_release_of_an_unknown_id(before, k);
        }
    }
}

/// Stopping marks the site as stopped, and goes through the background crawls as
/// unsubscribing goes through the listeners.
pub proof fn law_of_stop(w: &mut Website, id: Option<u32>, at: int, r: Released)
    requires
        old(w).wf(),
        call_ensures(Website::stop, (w, id), r),
    ensures
        final(w)@ == (WebsiteState {
            site: SiteState { stopped: true, ..old(w)@.site },
            crawls: final(w)@.crawls,
            ..old(w)@
        }),
        ({
            let before = old(w)@.crawls;
            let after = final(w)@.crawls;
            &&& 0 <= at < before.len() && id == Some(before[at].0) ==> r.found
                && r.aborted@ == seq![before[at].1] && after == before.take(at) + before.skip(
                at + 1,
            )
            &&& id is Some && (forall|i: int|
                0 <= i < before.len() ==> (#[trigger] before[i]).0 != id->0) ==> !r.found
                && r.aborted@.len() == 0 && after == before
            &&& id is None ==> r.found == (before.len() > 0) && after.len() == 0
                && r.aborted@.len() == before.len() && forall|i: int|
                0 <= i < before.len() ==> r.aborted@[i] == (#[trigger] before[i]).1
        }),
{
    lemma_release_law(old(w)@.crawls, id, at);
}

/// A crawl begins with a listener where the caller listens, on a copy where it is to run
/// in the background. It uses the browser exactly where headless is on.
pub proof fn law_of_crawl(
    w: &Website,
    listening: bool,
    background: Option<bool>,
    headless: Option<bool>,
    r: Session,
    s: Session,
)
    requires
        call_ensures(Website::crawl, (w, listening, background, headless), r),
        call_ensures(crawl_session, (listening, background, headless), s),
    ensures
        r == s,
        r == match (listening, background, headless) {
            (true, Some(true), Some(true)) => Session::Opening { work: Work::Spawn(Method::Crawl) },
            (true, Some(true), _) => Session::Opening { work: Work::Spawn(Method::CrawlRaw) },
            (true, _, Some(true)) => Session::Opening { work: Work::Run(Method::Crawl) },
            (true, _, _) => Session::Opening { work: Work::Run(Method::CrawlRaw) },
            (false, _, Some(true)) => Session::Working {
                work: Work::Run(Method::Crawl),
                listener: None,
            },
            (false, _, _) => Session::Working {
                work: Work::Run(Method::CrawlRaw),
                listener: None,
            },
        },
{
}

/// A scrape begins as a crawl does, with the methods that store the pages.
pub proof fn law_of_scrape(
    w: &Website,
    listening: bool,
    background: Option<bool>,
    headless: Option<bool>,
    r: Session,
    s: Session,
)
    requires
        call_ensures(Website::scrape, (w, listening, background, headless), r),
        call_ensures(scrape_session, (listening, background, headless), s),
    ensures
        r == s,
        r == match (listening, background, headless) {
            (true, Some(true), Some(true)) => Session::Opening {
                work: Work::Spawn(Method::Scrape),
            },
            (true, Some(true), _) => Session::Opening { work: Work::Spawn(Method::ScrapeRaw) },
            (true, _, Some(true)) => Session::Opening { work: Work::Run(Method::Scrape) },
            (true, _, _) => Session::Opening { work: Work::Run(Method::ScrapeRaw) },
            (false, _, Some(true)) => Session::Working {
                work: Work::Run(Method::Scrape),
                listener: None,
            },
            (false, _, _) => Session::Working {
                work: Work::Run(Method::ScrapeRaw),
                listener: None,
            },
        },
{
}

/// A scheduled job begins with a listener where the caller listens, and then is handed to
/// the scheduler.
pub proof fn law_of_run_cron(w: &Website, listening: bool, r: Session, s: Session)
    requires
        call_ensures(Website::run_cron, (w, listening), r),
        call_ensures(cron_session, (listening,), s),
    ensures
        r == s,
        listening ==> r == (Session::Opening { work: Work::Schedule }),
        !listening ==> r == (Session::Working { work: Work::Schedule, listener: None }),
{
}

/// What a session does next follows from where it stands.
pub proof fn law_of_action(session: &Session, r: Action)
    requires
        call_ensures(Session::action, (session,), r),
    ensures
        r == match *session {
            Session::Opening { work: Work::Spawn(_) } => Action::ListenToCopy,
            Session::Opening { work: Work::Run(_) } => Action::Listen,
            Session::Opening { work: Work::Schedule } => Action::Listen,
            Session::Working { work: Work::Run(method), .. } => Action::Run(method),
            Session::Working { work: Work::Spawn(method), .. } => Action::Spawn(method),
            Session::Working { work: Work::Schedule, .. } => Action::Schedule,
            Session::Finished => Action::Rest,
            Session::Scheduled { .. } => Action::Rest,
        },
{
}

/// A session with a listener goes on to its work, and nothing is registered yet.
pub proof fn law_of_advance_after_listening(w: &mut Website, work: Work, listener: u64, r: Session)
    requires
        old(w).wf(),
        call_ensures(
            Website::advance,
            (w, Session::Opening { work }, Event::Listening(listener)),
            r,
        ),
    ensures
        r == (Session::Working { work, listener: Some(listener) }),
        final(w)@ == old(w)@,
{
}

/// Work that is done registers the listener, where there is one, under the id above those
/// in use.
pub proof fn law_of_advance_after_running(
    w: &mut Website,
    method: Method,
    listener: Option<u64>,
    r: Session,
)
    requires
        old(w).wf(),
        ids_are_left(old(w)@.subscriptions),
        call_ensures(
            Website::advance,
            (w, Session::Working { work: Work::Run(method), listener }, Event::Completed),
            r,
        ),
    ensures
        r == Session::Finished,
        listener is None ==> final(w)@ == old(w)@,
        listener matches Some(handle) ==> {
            let before = old(w)@.subscriptions;
            let after = final(w)@.subscriptions;
            &&& final(w)@ == (WebsiteState { subscriptions: after, ..old(w)@ })
            &&& after.len() == before.len() + 1
            &&& after.drop_last() == before
            &&& after.last().1 == handle
            &&& before.len() == 0 ==> after.last().0 == 0
            &&& forall|i: int|
                0 <= i < before.len() ==> (#[trigger] before[i]).0 < after.last().0
        },
{
    if let Some(handle) = listener {
        law_new_handles_go_to_the_end(old(w)@.subscriptions, handle);
    }
}

/// Work that has been started in a task of its own registers the task and the listener,
/// each under the id above those in use in its table.
pub proof fn law_of_advance_after_spawning(
    w: &mut Website,
    method: Method,
    listener: u64,
    task: u64,
    r: Session,
)
    requires
        old(w).wf(),
        ids_are_left(old(w)@.subscriptions),
        ids_are_left(old(w)@.crawls),
        call_ensures(
            Website::advance,
            (
                w,
                Session::Working { work: Work::Spawn(method), listener: Some(listener) },
                Event::Spawned(task),
            ),
            r,
        ),
    ensures
        r == Session::Finished,
        ({
            let listeners = final(w)@.subscriptions;
            let crawls = final(w)@.crawls;
            &&& final(w)@ == (WebsiteState { subscriptions: listeners, crawls, ..old(w)@ })
            &&& listeners.len() == old(w)@.subscriptions.len() + 1
            &&& listeners.drop_last() == old(w)@.subscriptions
            &&& listeners.last().1 == listener
            &&& crawls.len() == old(w)@.crawls.len() + 1
            &&& crawls.drop_last() == old(w)@.crawls
            &&& crawls.last().1 == task
            &&& forall|i: int|
                0 <= i < old(w)@.subscriptions.len() ==> (#[trigger] old(w)@.subscriptions[i]).0
                    < listeners.last().0
            &&& forall|i: int|
                0 <= i < old(w)@.crawls.len() ==> (#[trigger] old(w)@.crawls[i]).0
                    < crawls.last().0
        }),
{
    law_new_handles_go_to_the_end(old(w)@.subscriptions, listener);
    law_new_handles_go_to_the_end(old(w)@.crawls, task);
}

/// A job that has been scheduled is handed out with its runner and its listener, and
/// nothing is registered.
pub proof fn law_of_advance_after_scheduling(
    w: &mut Website,
    listener: Option<u64>,
    runner: u64,
    r: Session,
)
    requires
        old(w).wf(),
        call_ensures(
            Website::advance,
            (w, Session::Working { work: Work::Schedule, listener }, Event::Scheduled(runner)),
            r,
        ),
    ensures
        r == (Session::Scheduled { cron: Cron { inner: runner, cron_handle: listener } }),
        final(w)@ == old(w)@,
{
}

/// A session can go on exactly with the event that it waits for, while the tables in which
/// that event registers a handle have ids left.
pub proof fn law_of_can_advance(w: &Website, session: &Session, event: &Event, r: bool)
    requires
        w.wf(),
        call_ensures(Website::can_advance, (w, session, event), r),
    ensures
        r == match (*session, *event) {
            (Session::Opening { .. }, Event::Listening(_)) => true,
            (
                Session::Working { work: Work::Run(_), listener: None },
                Event::Completed,
            ) => true,
            (
                Session::Working { work: Work::Run(_), listener: Some(_) },
                Event::Completed,
            ) => ids_are_left(w@.subscriptions),
            (
                Session::Working { work: Work::Spawn(_), listener: Some(_) },
                Event::Spawned(_),
            ) => ids_are_left(w@.subscriptions) && ids_are_left(w@.crawls),
            (Session::Working { work: Work::Schedule, .. }, Event::Scheduled(_)) => true,
            (_, _) => false,
        },
{
    law_room_is_left_below_the_highest_id(w@.subscriptions);
    law_room_is_left_below_the_highest_id(w@.crawls);
}

/// Stopping a scheduled job stops its runner and aborts its listener.
pub proof fn law_of_cron_stop(cron: &mut Cron, r: CronStop)
    requires
        call_ensures(Cron::stop, (cron,), r),
    ensures
        r.runner == old(cron).inner,
        r.aborted == old(cron).cron_handle,
        *final(cron) == *old(cron),
{
}

/// A subscription takes half of the buffer.
pub proof fn law_of_subscription_capacity(buffer: usize, r: usize)
    requires
        call_ensures(subscription_capacity, (buffer,), r),
    ensures
        2 * r <= buffer <= 2 * r + 1,
{
}

/// Whether a list holds exactly the texts of a set, each once.
pub open spec fn lists_once(list: Seq<String>, links: Set<Seq<char>>) -> bool {
    &&& forall|i: int| 0 <= i < list.len() ==> links.contains((#[trigger] list[i])@)
    &&& forall|link: Seq<char>| #[trigger]
        links.contains(link) ==> exists|i: int| 0 <= i < list.len() && (#[trigger] list[i])@ == link
    &&& forall|i: int, j: int|
        0 <= i < j < list.len() ==> (#[trigger] list[i])@ != (#[trigger] list[j])@
    &&& list.len() == links.len()
}

proof fn lemma_lists_once(list: Seq<String>, links: Set<Seq<char>>)
    requires
        texts(list).no_duplicates(),
        texts(list).to_set() == links,
    ensures
        lists_once(list, links),
{
    law_texts_one_for_one(list, Seq::empty());
    law_size_counts_links(list, links);
    assert forall|i: int| 0 <= i < list.len() implies links.contains((#[trigger] list[i])@) by {
        assert(texts(list)[i] == list[i]@);
        assert(texts(list).contains(list[i]@));
    }
    assert forall|link: Seq<char>| #[trigger] links.contains(link) implies exists|i: int|
        0 <= i < list.len() && (#[trigger] list[i])@ == link by {
        assert(texts(list).contains(link));
        let i = choose|i: int| 0 <= i < texts(list).len() && texts(list)[i] == link;
        assert(list[i]@ == link);
    }
    assert forall|i: int, j: int| 0 <= i < j < list.len() implies (#[trigger] list[i])@ != (
    #[trigger] list[j])@ by {
        assert(texts(list)[i] == list[i]@ && texts(list)[j] == list[j]@);
    }
}

/// The links are handed out each once, and their number is the size as far as it has 32
/// bits; the status and the dataset are read as they are.
pub proof fn law_of_getters(w: &Website, links: Vec<String>, size: u32, status: String)
    requires
        call_ensures(Website::get_links, (w,), links),
        call_ensures(Website::size, (w,), size),
        call_ensures(Website::status, (w,), status),
    ensures
        lists_once(links@, w@.site.links),
        links@.len() <= u32::MAX ==> size == links@.len(),
        status@ == w@.site.status,
{
    lemma_lists_once(links@, w@.site.links);
}

/// The stored pages are handed out in their order, each with the flag of the website.
pub proof fn law_of_get_pages<'a>(w: &'a Website, r: Vec<NPage<'a>>)
    requires
        call_ensures(Website::get_pages, (w,), r),
    ensures
        r@.len() == w@.site.pages.len(),
        forall|i: int|
            0 <= i < r@.len() ==> *(#[trigger] r@[i]).page == w@.site.pages[i]
                && r@[i].raw_content == w@.raw_content,
{
}

/// Draining hands out the links each once and leaves none; nothing else changes.
pub proof fn law_of_drain_links(w: &mut Website, r: Vec<String>)
    requires
        call_ensures(Website::drain_links, (w,), r),
    ensures
        lists_once(r@, old(w)@.site.links),
        final(w)@ == (WebsiteState {
            site: SiteState { links: Set::empty(), ..old(w)@.site },
            ..old(w)@
        }),
{
    lemma_lists_once(r@, old(w)@.site.links);
}

/// Clearing forgets the links and the pages; nothing else changes.
pub proof fn law_of_clear(w: &mut Website, r: ())
    requires
        call_ensures(Website::clear, (w,), r),
    ensures
        final(w)@ == (WebsiteState {
            site: SiteState { links: Set::empty(), pages: Seq::empty(), ..old(w)@.site },
            ..old(w)@
        }),
{
}

/// Whether a field with a valid name and a valid value has this name in small letters, and
/// this text.
pub open spec fn is_told(fields: Seq<HeaderField>, name: Seq<char>, text: Seq<char>) -> bool {
    exists|i: int|
        0 <= i < fields.len() && valid_header_name((#[trigger] fields[i]).name@)
            && valid_header_value(field_text(fields[i])) && lower(fields[i].name@) == name
            && field_text(fields[i]) == text
}

/// Whether headers are those of fields: every field with a valid name and a valid value is
/// among them, and nothing else is.
pub open spec fn headers_tell(
    headers: Map<Seq<char>, Seq<Seq<char>>>,
    fields: Seq<HeaderField>,
) -> bool {
    &&& forall|i: int|
        0 <= i < fields.len() && valid_header_name((#[trigger] fields[i]).name@)
            && valid_header_value(field_text(fields[i])) ==> headers.contains_key(
            lower(fields[i].name@),
        ) && headers[lower(fields[i].name@)].contains(field_text(fields[i]))
    &&& forall|name: Seq<char>, at: int|
        headers.contains_key(name) && 0 <= at < headers[name].len() ==> is_told(
            fields,
            name,
            #[trigger] headers[name][at],
        )
}

proof fn lemma_headers_tell(fields: Seq<HeaderField>)
    ensures
        headers_tell(headers_of(fields), fields),
{
    let headers = headers_of(fields);
    assert forall|i: int|
        0 <= i < fields.len() && valid_header_name((#[trigger] fields[i]).name@)
            && valid_header_value(field_text(fields[i])) implies headers.contains_key(
        lower(fields[i].name@),
    ) && headers[lower(fields[i].name@)].contains(field_text(fields[i])) by {
        law_valid_fields_become_headers(fields, i);
    }
    assert forall|name: Seq<char>, at: int|
        headers.contains_key(name) && 0 <= at < headers[name].len() implies is_told(
        fields,
        name,
        #[trigger] headers[name][at],
    ) by {
        law_headers_come_from_fields(fields, name, at);
    }
}

/// One more field with a valid name and a valid value appends its text to those of its
/// name in small letters; one without them makes no difference.
pub proof fn law_of_collecting_one_more_header(
    fields: &Vec<HeaderField>,
    more: &Vec<HeaderField>,
    field: HeaderField,
    one: Result<HeaderMap, HeaderOverflow>,
    other: Result<HeaderMap, HeaderOverflow>,
)
    requires
        call_ensures(collect_headers, (fields,), one),
        call_ensures(collect_headers, (more,), other),
        more@ == fields@.push(field),
        one is Ok,
        other is Ok,
    ensures
        ({
            let before = header_entries(one->Ok_0);
            let after = header_entries(other->Ok_0);
            let name = lower(field.name@);
            if valid_header_name(field.name@) && valid_header_value(field_text(field)) {
                after == before.insert(
                    name,
                    (if before.contains_key(name) {
                        before[name]
                    } else {
                        Seq::empty()
                    }).push(field_text(field)),
                )
            } else {
                after == before
            }
        }),
{
    law_headers_grow_field_by_field(fields@, field);
}

/// Collecting headers takes every field with a valid name and a valid value, and no other,
/// and does not overflow while there are no more fields than a table surely holds.
pub proof fn law_of_collect_headers(
    fields: &Vec<HeaderField>,
    r: Result<HeaderMap, HeaderOverflow>,
)
    requires
        call_ensures(collect_headers, (fields,), r),
    ensures
        fields@.len() <= 6553 ==> r is Ok,
        r matches Ok(h) ==> headers_tell(header_entries(h), fields@),
{
    lemma_headers_tell(fields@);
    if fields@.len() <= 6553 {
        law_few_fields_fit(fields@);
    }
}

/// Setting headers replaces those of the site by the valid ones of the fields, or drops
/// them, and changes nothing else; an overflow changes nothing.
pub proof fn law_of_with_headers(
    w: &mut Website,
    headers: Option<Vec<HeaderField>>,
    r: Result<&Website, HeaderOverflow>,
)
    requires
        call_ensures(Website::with_headers, (w, headers), r),
    ensures
        r is Err ==> final(w)@ == old(w)@,
        headers is None ==> r is Ok && final(w)@.site.headers is None,
        headers matches Some(fields) ==> (fields@.len() <= 6553 ==> r is Ok),
        headers matches Some(fields) ==> (r is Ok ==> final(w)@.site.headers is Some
            && headers_tell(final(w)@.site.headers->0, fields@)),
        final(w)@ == (WebsiteState {
            site: SiteState { headers: final(w)@.site.headers, ..old(w)@.site },
            ..old(w)@
        }),
{
    if let Some(fields) = headers {
        lemma_headers_tell(fields@);
        if fields@.len() <= 6553 {
            law_few_fields_fit(fields@);
        }
    }
}

/// Whether the entry at a place is the last one for its path, and no other path differs
/// from that in capitals alone.
pub open spec fn has_the_last_word(entries: Seq<(String, u32)>, at: int) -> bool {
    &&& 0 <= at < entries.len()
    &&& forall|j: int| at < j < entries.len() ==> (#[trigger] entries[j]).0@ != entries[at].0@
    &&& forall|j: int|
        0 <= j < entries.len() && lower((#[trigger] entries[j]).0@) == lower(entries[at].0@)
            ==> entries[j].0@ == entries[at].0@
}

/// Whether limits by path in small letters are those of entries: the last entry for a path
/// gives its limit, and there are no limits but those of entries.
pub open spec fn limits_tell(limits: Map<Seq<char>, u32>, entries: Seq<(String, u32)>) -> bool {
    &&& forall|at: int|
        #![trigger entries[at]]
        has_the_last_word(entries, at) ==> limits.contains_key(lower(entries[at].0@))
            && limits[lower(entries[at].0@)] == entries[at].1
    &&& forall|path: Seq<char>| #[trigger]
        limits.contains_key(path) ==> exists|i: int|
            0 <= i < entries.len() && lower((#[trigger] entries[i]).0@) == path && entries[i].1
                == limits[path]
}

/// Setting a budget gives each path of the entries its limit, under its small form, and
/// sets no other; nothing else changes. No budget changes nothing.
pub proof fn law_of_with_budget(w: &mut Website, budget: Option<Vec<(String, u32)>>, r: &Website)
    requires
        call_ensures(Website::with_budget, (w, budget), r),
    ensures
        budget is None ==> final(w)@ == old(w)@,
        final(w)@ == (WebsiteState {
            site: SiteState { budget: final(w)@.site.budget, ..old(w)@.site },
            ..old(w)@
        }),
        budget matches Some(entries) ==> final(w)@.site.budget is Some && limits_tell(
            final(w)@.site.budget->0,
            entries@,
        ),
{
    if let Some(list) = budget {
        let entries = list@;
        let limits = final(w)@.site.budget->0;
        let given = limits_map(entries);
        assert forall|at: int|
            #![trigger entries[at]]
            has_the_last_word(entries, at) implies limits.contains_key(lower(entries[at].0@))
            && limits[lower(entries[at].0@)] == entries[at].1 by {
            let path = entries[at].0@;
            law_budget_takes_the_last_word(entries, at);
            assert(given.contains_key(path));
            let q = choose|q: Seq<char>|
                #![trigger given.contains_key(q)]
                given.contains_key(q) && lower(q) == lower(path) && given[q] == limits[lower(
                    path,
                )];
            law_limits_come_from_entries(entries, q);
            let i = choose|i: int|
                0 <= i < entries.len() && (#[trigger] entries[i]).0@ == q && entries[i].1
                    == given[q];
            assert(lower(entries[i].0@) == lower(path));
        }
        assert forall|small: Seq<char>| #[trigger] limits.contains_key(small) implies exists|i: int|
            0 <= i < entries.len() && lower((#[trigger] entries[i]).0@) == small && entries[i].1
                == limits[small] by {
            let q = choose|q: Seq<char>|
                #![trigger given.contains_key(q)]
                given.contains_key(q) && lower(q) == small && given[q] == limits[small];
            law_limits_come_from_entries(entries, q);
            let i = choose|i: int|
                0 <= i < entries.len() && (#[trigger] entries[i]).0@ == q && entries[i].1
                    == given[q];
            assert(lower(entries[i].0@) == small);
        }
    }
}

/// Each flag is set as it is given; nothing else changes.
pub proof fn law_of_flags(
    robots: &mut Website,
    subdomains: &mut Website,
    tld: &mut Website,
    http2: &mut Website,
    on: bool,
    r: (&Website, &Website, &Website, &Website),
)
    requires
        call_ensures(Website::with_respect_robots_txt, (robots, on), r.0),
        call_ensures(Website::with_subdomains, (subdomains, on), r.1),
        call_ensures(Website::with_tld, (tld, on), r.2),
        call_ensures(Website::with_http2_prior_knowledge, (http2, on), r.3),
    ensures
        final(robots)@ == (WebsiteState {
            site: SiteState { respect_robots_txt: on, ..old(robots)@.site },
            ..old(robots)@
        }),
        final(subdomains)@ == (WebsiteState {
            site: SiteState { subdomains: on, ..old(subdomains)@.site },
            ..old(subdomains)@
        }),
        final(tld)@ == (WebsiteState {
            site: SiteState { tld: on, ..old(tld)@.site },
            ..old(tld)@
        }),
        final(http2)@ == (WebsiteState {
            site: SiteState { http2_prior_knowledge: on, ..old(http2)@.site },
            ..old(http2)@
        }),
{
}

/// Times are set in milliseconds as they are given; nothing else changes.
pub proof fn law_of_times(
    timeout: &mut Website,
    delay: &mut Website,
    wait: Option<u32>,
    pause: u32,
    r: (&Website, &Website),
)
    requires
        call_ensures(Website::with_request_timeout, (timeout, wait), r.0),
        call_ensures(Website::with_delay, (delay, pause), r.1),
    ensures
        wait is None ==> final(timeout)@.site.request_timeout is None,
        wait matches Some(ms) ==> final(timeout)@.site.request_timeout == Some(ms as nat),
        final(timeout)@ == (WebsiteState {
            site: SiteState {
                request_timeout: final(timeout)@.site.request_timeout,
                ..old(timeout)@.site
            },
            ..old(timeout)@
        }),
        final(delay)@ == (WebsiteState {
            site: SiteState { delay: pause as nat, ..old(delay)@.site },
            ..old(delay)@
        }),
{
}

/// Whether an optional list of texts is that of a list of strings, one for one.
pub open spec fn same_list(set: Option<Seq<Seq<char>>>, list: Option<Vec<String>>) -> bool {
    match list {
        None => set is None,
        Some(given) => set is Some && set->0.len() == given@.len() && forall|i: int|
            0 <= i < given@.len() ==> set->0[i] == (#[trigger] given@[i])@,
    }
}

/// The user agent, the patterns to leave out and the proxies are set as they are given, or
/// dropped; nothing else changes.
pub proof fn law_of_texts(
    agent: &mut Website,
    blacklist: &mut Website,
    proxies: &mut Website,
    name: Option<&str>,
    list: Option<Vec<String>>,
    r: (&Website, &Website, &Website),
)
    requires
        call_ensures(Website::with_user_agent, (agent, name), r.0),
        call_ensures(Website::with_blacklist_url, (blacklist, list), r.1),
        call_ensures(Website::with_proxies, (proxies, list), r.2),
    ensures
        name is None ==> final(agent)@.site.user_agent is None,
        name matches Some(n) ==> final(agent)@.site.user_agent == Some(n@),
        final(agent)@ == (WebsiteState {
            site: SiteState { user_agent: final(agent)@.site.user_agent, ..old(agent)@.site },
            ..old(agent)@
        }),
        same_list(final(blacklist)@.site.blacklist_url, list),
        final(blacklist)@ == (WebsiteState {
            site: SiteState {
                blacklist_url: final(blacklist)@.site.blacklist_url,
                ..old(blacklist)@.site
            },
            ..old(blacklist)@
        }),
        same_list(final(proxies)@.site.proxies, list),
        final(proxies)@ == (WebsiteState {
            site: SiteState { proxies: final(proxies)@.site.proxies, ..old(proxies)@.site },
            ..old(proxies)@
        }),
{
    if let Some(given) = list {
        law_texts_one_for_one(given@, Seq::empty());
    }
}

/// The other domains of the crawl are the hosts of those given, and `*` as itself; nothing
/// else changes.
pub proof fn law_of_with_external_domains(
    w: &mut Website,
    list: Option<Vec<String>>,
    host: Seq<char>,
    r: &Website,
)
    requires
        call_ensures(Website::with_external_domains, (w, list), r),
    ensures
        list is None ==> !final(w)@.site.external_domains.contains(host),
        list matches Some(given) ==> final(w)@.site.external_domains.contains(host) == (exists|
            i: int,
        |
            0 <= i < given@.len() && joins_as((#[trigger] given@[i])@, host)),
        final(w)@ == (WebsiteState {
            site: SiteState {
                external_domains: final(w)@.site.external_domains,
                ..old(w)@.site
            },
            ..old(w)@
        }),
{
    if let Some(given) = list {
        let domains = texts(given@);
        law_domains_join_by_their_hosts(domains, host);
        law_texts_one_for_one(given@, Seq::empty());
        if domain_hosts(domains).contains(host) {
            let i = choose|i: int|
                0 <= i < domains.len() && joins_as(#[trigger] domains[i], host);
            assert(given@[i]@ == domains[i]);
        }
        if exists|i: int|
            0 <= i < given@.len() && joins_as((#[trigger] given@[i])@, host) {
            let i = choose|i: int|
                0 <= i < given@.len() && joins_as((#[trigger] given@[i])@, host);
            assert(domains[i] == given@[i]@);
        }
    }
}

/// A scheduled job has the schedule as it is given, and scrapes exactly where its type is
/// `scrape`; nothing else changes.
pub proof fn law_of_with_cron(
    w: &mut Website,
    cron_str: String,
    cron_type: Option<String>,
    r: &Website,
)
    requires
        call_ensures(Website::with_cron, (w, cron_str, cron_type), r),
    ensures
        final(w)@.site.cron_str == cron_str@,
        final(w)@.site.cron_type == CronType::Scrape <==> (cron_type matches Some(t) && t@ == seq![
            's',
            'c',
            'r',
            'a',
            'p',
            'e',
        ]),
        final(w)@ == (WebsiteState {
            site: SiteState {
                cron_str: final(w)@.site.cron_str,
                cron_type: final(w)@.site.cron_type,
                ..old(w)@.site
            },
            ..old(w)@
        }),
{
    reveal_strlit("scrape");
    assert("scrape"@ =~= seq!['s', 'c', 'r', 'a', 'p', 'e']);
}

/// The site is given out as it is, and what is done to it is done to the website's.
pub proof fn law_of_inner<'a>(w: &Website, site: &Site, m: &'a mut Website, held: &'a mut Site)
    requires
        call_ensures(Website::inner, (w,), site),
        call_ensures(Website::inner_mut, (m,), held),
    ensures
        site_state(*site) == w@.site,
        site_state(*old(held)) == old(m)@.site,
        final(m)@ == (WebsiteState { site: site_state(*final(held)), ..old(m)@ }),
{
}

/// Building keeps what the website holds.
pub proof fn law_of_build(w: &mut Website, r: &Website)
    requires
        call_ensures(Website::build, (w,), r),
    ensures
        final(w)@ == old(w)@,
        r@ == old(w)@,
{
}

} // verus!
