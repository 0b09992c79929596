//! What holds of the library as a whole.
use vstd::prelude::*;

use crate::budget::{folds, limits_map};
use crate::cron::Cron;
use crate::handles::{
    ascending_ids, enrolled, entries_left, following_id, has_room, lemma_enrolled,
    lemma_following_id, lemma_slot, lemma_without_entry, registered, released_handles, slot,
    without_entry,
};
use crate::headers::{
    accepted, headers_of, is_token_char, valid_header_name, value_text, HeaderField,
};
use crate::json::{lemma_read_object, members_of, read_line};
use crate::record::{
    ends_line, json_char, json_chars, json_member, json_members, json_object, json_string,
    json_value, line_is_open, lines, object_bytes, record_bytes, stored, value_of, with_line_ended,
    JsonValue, Property, LINE_FEED,
};
use crate::session::{
    crawl_method, cron_opening, opening, scrape_method, Action, Event, Method, Session,
};
use crate::site::texts;
use crate::storage::{
    default_file, directory_for, export_run, file_for, files_after, parent, ExportOutcomes,
    ExportStep,
};
use crate::text::{
    lemma_encode_ascii, lemma_encode_ascii_byte, lemma_encode_concat, lower, lower_char,
};
use crate::website::WebsiteState;

verus! {

/// The next id is above every id in use, so registering a handle takes none away: it
/// puts the new one at the end and keeps the ids growing along the table.
pub proof fn law_next_id_is_highest(entries: Seq<(u32, u64)>, handle: u64)
    requires
        ascending_ids(entries),
        has_room(entries),
    ensures
        forall|i: int| 0 <= i < entries.len() ==> (#[trigger] entries[i]).0 < following_id(entries),
        !registered(entries, following_id(entries) as u32),
        enrolled(entries, handle) == entries.push((following_id(entries) as u32, handle)),
        ascending_ids(enrolled(entries, handle)),
{
    lemma_following_id(entries);
    lemma_slot(entries, following_id(entries) as u32);
    lemma_enrolled(entries, handle);
}

/// Releasing a handle just registered gives that handle back and leaves the table as it
/// was.
pub proof fn law_release_undoes_enroll(entries: Seq<(u32, u64)>, handle: u64)
    requires
        ascending_ids(entries),
        has_room(entries),
    ensures
        released_handles(enrolled(entries, handle), Some(following_id(entries) as u32)) == seq![
            handle,
        ],
        entries_left(enrolled(entries, handle), Some(following_id(entries) as u32)) == entries,
{
    let id = following_id(entries) as u32;
    let after = enrolled(entries, handle);
    lemma_enrolled(entries, handle);
    lemma_slot(after, id);
    assert(after[entries.len() as int].0 == id);
    assert(entries_left(after, Some(id)) =~= entries);
}

/// A released id is gone: releasing it again finds nothing and changes nothing.
pub proof fn law_release_is_final(entries: Seq<(u32, u64)>, id: u32)
    requires
        ascending_ids(entries),
    ensures
        !registered(entries_left(entries, Some(id)), id),
        released_handles(entries_left(entries, Some(id)), Some(id)).len() == 0,
        entries_left(entries_left(entries, Some(id)), Some(id)) == entries_left(entries, Some(id)),
{
    lemma_without_entry(entries, id);
}

/// Releasing one id leaves every other one registered, with its handle.
pub proof fn law_release_spares_others(entries: Seq<(u32, u64)>, id: u32, other: u32)
    requires
        ascending_ids(entries),
        other != id,
    ensures
        registered(entries_left(entries, Some(id)), other) == registered(entries, other),
        released_handles(entries_left(entries, Some(id)), Some(other)) == released_handles(
            entries,
            Some(other),
        ),
{
    let left = without_entry(entries, id);
    lemma_slot(entries, id);
    lemma_slot(entries, other);
    lemma_slot(left, other);
    lemma_without_entry(entries, id);
    let s = slot(entries, id);
    let o = slot(entries, other);
    if registered(entries, id) {
        if registered(entries, other) {
            assert(left[if o < s { o } else { o - 1 }] == entries[o]);
        }
        if registered(left, other) {
            let l = slot(left, other);
            assert(entries[if l < s { l } else { l + 1 }].0 == other);
        }
    }
    assert(released_handles(left, Some(other)) =~= released_handles(entries, Some(other)));
}

/// Registering a handle leaves every registered id with its handle.
pub proof fn law_enroll_spares_others(entries: Seq<(u32, u64)>, handle: u64, other: u32)
    requires
        ascending_ids(entries),
        has_room(entries),
        registered(entries, other),
    ensures
        released_handles(enrolled(entries, handle), Some(other)) == released_handles(
            entries,
            Some(other),
        ),
{
    let after = enrolled(entries, handle);
    lemma_enrolled(entries, handle);
    lemma_slot(entries, other);
    lemma_slot(after, other);
    assert(after[slot(entries, other)] == entries[slot(entries, other)]);
}

/// Releasing everything gives up every registered handle, in the order of the table,
/// and the ids start over.
pub proof fn law_release_all(entries: Seq<(u32, u64)>)
    ensures
        entries_left(entries, None).len() == 0,
        following_id(entries_left(entries, None)) == 0,
        released_handles(entries, None).len() == entries.len(),
        forall|i: int|
            0 <= i < entries.len() ==> released_handles(entries, None)[i] == (
            #[trigger] entries[i]).1,
{
}

/// A caller that does not listen is served in the foreground, whatever it asks for.
pub proof fn law_background_needs_a_listener(background: Option<bool>, method: Method)
    ensures
        opening(false, background, method) == opening(false, None, method),
        opening(false, background, method).next_action() == Action::Run(method),
{
}

/// A crawl and a scrape with the same options go alike: they ask for the same kinds of
/// action, wait for the same events, register the same handles and end alike. Only the
/// method differs.
pub proof fn law_scrape_goes_like_crawl(
    state: WebsiteState,
    listening: bool,
    background: Option<bool>,
    headless: Option<bool>,
    first: Event,
    second: Event,
)
    ensures
        ({
            let c = opening(listening, background, crawl_method(headless));
            let s = opening(listening, background, scrape_method(headless));
            let c1 = c.after(first);
            let s1 = s.after(first);
            &&& c.next_action() is Run == s.next_action() is Run
            &&& !(c.next_action() is Run) ==> c.next_action() == s.next_action()
            &&& c.expects(first) == s.expects(first)
            &&& state.after(c, first) == state.after(s, first)
            &&& c1.next_action() is Run == s1.next_action() is Run
            &&& c1.next_action() is Spawn == s1.next_action() is Spawn
            &&& c1.expects(second) == s1.expects(second)
            &&& state.after(c1, second) == state.after(s1, second)
            &&& c1.after(second) == s1.after(second)
        }),
{
}

/// A session without a listener works through the site and registers nothing.
pub proof fn law_silent_session(state: WebsiteState, background: Option<bool>, method: Method)
    ensures
        ({
            let s = opening(false, background, method);
            &&& s.next_action() == Action::Run(method)
            &&& s.expects(Event::Completed)
            &&& s.after(Event::Completed) == Session::Finished
            &&& state.can_take(s, Event::Completed)
            &&& state.after(s, Event::Completed) == state
        }),
{
}

/// A session with a listener in the foreground listens to the site, works through it,
/// and then registers the listener alone.
pub proof fn law_foreground_session(
    state: WebsiteState,
    background: Option<bool>,
    method: Method,
    listener: u64,
)
    requires
        background != Some(true),
    ensures
        ({
            let s0 = opening(true, background, method);
            let s1 = s0.after(Event::Listening(listener));
            &&& s0.next_action() == Action::Listen
            &&& s0.expects(Event::Listening(listener))
            &&& state.after(s0, Event::Listening(listener)) == state
            &&& s1.valid()
            &&& s1.next_action() == Action::Run(method)
            &&& s1.expects(Event::Completed)
            &&& s1.after(Event::Completed) == Session::Finished
            &&& state.after(s1, Event::Completed) == (WebsiteState {
                subscriptions: enrolled(state.subscriptions, listener),
                ..state
            })
        }),
{
}

/// A session in the background listens to a copy, works through the copy in a task of
/// its own, and registers both: the site itself, with its links and its size, stays as
/// it is.
pub proof fn law_background_session(
    state: WebsiteState,
    method: Method,
    listener: u64,
    crawl: u64,
)
    ensures
        ({
            let s0 = opening(true, Some(true), method);
            let s1 = s0.after(Event::Listening(listener));
            &&& s0.next_action() == Action::ListenToCopy
            &&& s0.expects(Event::Listening(listener))
            &&& state.after(s0, Event::Listening(listener)) == state
            &&& s1.valid()
            &&& s1.next_action() == Action::Spawn(method)
            &&& s1.expects(Event::Spawned(crawl))
            &&& s1.after(Event::Spawned(crawl)) == Session::Finished
            &&& state.after(s1, Event::Spawned(crawl)) == (WebsiteState {
                subscriptions: enrolled(state.subscriptions, listener),
                crawls: enrolled(state.crawls, crawl),
                ..state
            })
            &&& state.after(s1, Event::Spawned(crawl)).site == state.site
        }),
{
}

/// A scheduled job keeps the listener that was started for it, and registers nothing
/// with the website.
pub proof fn law_cron_session(state: WebsiteState, listener: u64, runner: u64)
    ensures
        ({
            let s0 = cron_opening(true);
            let s1 = s0.after(Event::Listening(listener));
            &&& s0.next_action() == Action::Listen
            &&& s0.expects(Event::Listening(listener))
            &&& s1.valid()
            &&& s1.next_action() == Action::Schedule
            &&& s1.expects(Event::Scheduled(runner))
            &&& s1.after(Event::Scheduled(runner)) == (Session::Scheduled {
                cron: Cron { inner: runner, cron_handle: Some(listener) },
            })
            &&& state.after(s0, Event::Listening(listener)) == state
            &&& state.after(s1, Event::Scheduled(runner)) == state
        }),
        ({
            let s = cron_opening(false);
            &&& s.next_action() == Action::Schedule
            &&& s.expects(Event::Scheduled(runner))
            &&& s.after(Event::Scheduled(runner)) == (Session::Scheduled {
                cron: Cron { inner: runner, cron_handle: None },
            })
            &&& state.after(s, Event::Scheduled(runner)) == state
        }),
{
}

/// A list that holds every link of a site once has as many links as the site.
pub proof fn law_size_counts_links(list: Seq<String>, links: Set<Seq<char>>)
    requires
        texts(list).no_duplicates(),
        texts(list).to_set() == links,
    ensures
        list.len() == links.len(),
{
    texts(list).unique_seq_to_set();
}

proof fn lemma_json_chars_one_line(text: Seq<char>)
    ensures
        !json_chars(text).contains('\n'),
    decreases text.len(),
{
    if text.len() > 0 {
        lemma_json_chars_one_line(text.drop_last());
        let before = json_chars(text.drop_last());
        let last = json_char(text.last());
        if json_chars(text).contains('\n') {
            let i = choose|i: int| 0 <= i < json_chars(text).len() && json_chars(text)[i] == '\n';
            if i < before.len() {
                assert(before[i] == '\n');
            } else {
                assert(last[i - before.len()] == '\n');
            }
        }
    }
}

proof fn lemma_concat_one_line(a: Seq<char>, b: Seq<char>)
    requires
        !a.contains('\n'),
        !b.contains('\n'),
    ensures
        !(a + b).contains('\n'),
{
    if (a + b).contains('\n') {
        let i = choose|i: int| 0 <= i < (a + b).len() && (a + b)[i] == '\n';
        if i < a.len() {
            assert(a[i] == '\n');
        } else {
            assert(b[i - a.len()] == '\n');
        }
    }
}

proof fn lemma_string_one_line(text: Seq<char>)
    ensures
        !json_string(text).contains('\n'),
{
    lemma_json_chars_one_line(text);
    lemma_concat_one_line(seq!['"'], json_chars(text));
    lemma_concat_one_line(seq!['"'] + json_chars(text), seq!['"']);
}

proof fn lemma_member_one_line(p: Property)
    ensures
        !json_member(p).contains('\n'),
{
    reveal_strlit("true");
    reveal_strlit("false");
    reveal_strlit("null");
    lemma_string_one_line(p.key@);
    if let JsonValue::Text(text) = value_of(p) {
        lemma_string_one_line(text);
    }
    lemma_concat_one_line(json_string(p.key@), seq![':']);
    lemma_concat_one_line(json_string(p.key@) + seq![':'], json_value(value_of(p)));
}

proof fn lemma_members_one_line(ps: Seq<Property>)
    ensures
        !json_members(ps).contains('\n'),
    decreases ps.len(),
{
    if ps.len() > 0 {
        lemma_member_one_line(ps[0]);
        if ps.len() > 1 {
            lemma_members_one_line(ps.skip(1));
            lemma_concat_one_line(json_member(ps[0]), seq![',']);
            lemma_concat_one_line(json_member(ps[0]) + seq![','], json_members(ps.skip(1)));
        }
    }
}

proof fn lemma_object_one_line(ps: Seq<Property>)
    ensures
        object_bytes(ps).len() > 0,
        !object_bytes(ps).contains(LINE_FEED),
{
    let text = json_object(ps);
    lemma_members_one_line(ps);
    lemma_concat_one_line(seq!['{'], json_members(ps));
    lemma_concat_one_line(seq!['{'] + json_members(ps), seq!['}']);
    if object_bytes(ps).contains(LINE_FEED) {
        lemma_encode_ascii_byte(text, LINE_FEED);
    }
    lemma_encode_ascii('}');
    lemma_encode_concat(seq!['{'] + json_members(ps), seq!['}']);
}

/// A record is one JSON object on one line: but for the line feed that may end it, it
/// holds no line feed, and reading it gives the keys of the object in their order, each
/// with its value.
pub proof fn law_record_is_json(ps: Seq<Property>, collected_size: nat, link_count: nat)
    ensures
        record_bytes(ps, collected_size, link_count) == object_bytes(ps) + (if ends_line(
            collected_size,
            link_count,
        ) {
            seq![LINE_FEED]
        } else {
            Seq::empty()
        }),
        object_bytes(ps).len() > 0,
        !object_bytes(ps).contains(LINE_FEED),
        read_line(object_bytes(ps)) == Some(members_of(ps)),
        forall|i: int| 0 <= i < ps.len() ==> (#[trigger] members_of(ps)[i]).0 == ps[i].key@,
{
    lemma_object_one_line(ps);
    lemma_read_object(ps);
    assert(record_bytes(ps, collected_size, link_count) =~= object_bytes(ps) + (if ends_line(
        collected_size,
        link_count,
    ) {
        seq![LINE_FEED]
    } else {
        Seq::empty()
    }));
}

proof fn lemma_lines_of_record(data: Seq<u8>, record: Seq<u8>)
    requires
        !line_is_open(data),
        record.len() > 0,
        !record.contains(LINE_FEED),
    ensures
        lines(data + record) == lines(data).push(record),
        line_is_open(data + record),
    decreases record.len(),
{
    let last = record.len() - 1;
    let front = record.drop_last();
    assert(record[last] != LINE_FEED);
    assert((data + record).drop_last() =~= data + front);
    if last == 0 {
        assert(data + front =~= data);
        assert(seq![record.last()] =~= record);
    } else {
        assert(!front.contains(LINE_FEED)) by {
            if front.contains(LINE_FEED) {
                let i = choose|i: int| 0 <= i < front.len() && front[i] == LINE_FEED;
                assert(record[i] == LINE_FEED);
            }
        }
        lemma_lines_of_record(data, front);
        assert(front.push(record.last()) =~= record);
        assert(lines(data).push(front).drop_last() =~= lines(data));
    }
}

/// Storing an object adds one line to the dataset, which is its record, and leaves the
/// lines before it as they are.
pub proof fn law_store_adds_a_line(data: Seq<u8>, ps: Seq<Property>, link_count: nat)
    ensures
        lines(stored(data, ps, link_count)) == lines(data).push(object_bytes(ps)),
        data.is_prefix_of(stored(data, ps, link_count)),
{
    let record = object_bytes(ps);
    let start = with_line_ended(data);
    lemma_object_one_line(ps);
    assert(start.drop_last() =~= data || start == data);
    assert(lines(start) == lines(data));
    lemma_lines_of_record(start, record);
    if ends_line(data.len(), link_count) {
        assert(stored(data, ps, link_count).drop_last() =~= start + record);
    }
    assert(data =~= stored(data, ps, link_count).take(data.len() as int));
}

/// The dataset of a new website after these objects have been stored one by one, each
/// while the site had so many visited links.
pub open spec fn dataset(objects: Seq<(Seq<Property>, nat)>) -> Seq<u8>
    decreases objects.len(),
{
    if objects.len() == 0 {
        Seq::empty()
    } else {
        stored(dataset(objects.drop_last()), objects.last().0, objects.last().1)
    }
}

/// The dataset is made of lines: splitting it at the line feeds gives the records of the
/// objects stored, in their order, and each reads back as its object.
pub proof fn law_dataset_lines_are_the_records(objects: Seq<(Seq<Property>, nat)>)
    ensures
        lines(dataset(objects)).len() == objects.len(),
        forall|i: int|
            0 <= i < objects.len() ==> #[trigger] lines(dataset(objects))[i] == object_bytes(
                objects[i].0,
            ) && read_line(lines(dataset(objects))[i]) == Some(members_of(objects[i].0)),
    decreases objects.len(),
{
    if objects.len() > 0 {
        let front = objects.drop_last();
        law_dataset_lines_are_the_records(front);
        law_store_adds_a_line(dataset(front), objects.last().0, objects.last().1);
        assert forall|i: int| 0 <= i < objects.len() implies #[trigger] lines(dataset(objects))[i]
            == object_bytes(objects[i].0) && read_line(lines(dataset(objects))[i]) == Some(
            members_of(objects[i].0),
        ) by {
            lemma_read_object(objects[i].0);
            if i < front.len() {
                assert(front[i] == objects[i]);
                assert(lines(dataset(objects))[i] == lines(dataset(front))[i]);
            }
        }
    }
}

proof fn lemma_parent_of_suffixed(path: Seq<char>, suffix: Seq<char>)
    requires
        !suffix.contains('/'),
    ensures
        parent(path + suffix) == parent(path),
    decreases suffix.len(),
{
    if suffix.len() == 0 {
        assert(path + suffix =~= path);
    } else {
        assert(suffix[suffix.len() - 1] != '/');
        assert((path + suffix).drop_last() =~= path + suffix.drop_last());
        assert(!suffix.drop_last().contains('/')) by {
            if suffix.drop_last().contains('/') {
                let i = choose|i: int|
                    0 <= i < suffix.drop_last().len() && suffix.drop_last()[i] == '/';
                assert(suffix[i] == '/');
            }
        }
        lemma_parent_of_suffixed(path, suffix.drop_last());
    }
}

/// An export to a path creates what the file needs: the directory that holds the file
/// is the one created, or the one above it.
pub proof fn law_export_creates_the_path(path: Seq<char>)
    ensures
        parent(file_for(path)) == directory_for(path) || parent(file_for(path)) == parent(
            directory_for(path),
        ),
{
    reveal_strlit(".jsonl");
    if !path.contains('.') {
        lemma_parent_of_suffixed(path, ".jsonl"@);
    }
}

/// An export without a path writes below the storage directory.
pub proof fn law_export_defaults_to_storage(url: Seq<char>)
    ensures
        ("./storage"@ + seq!['/']).is_prefix_of(default_file(url)),
{
    reveal_strlit("./storage");
    reveal_strlit("./storage/");
    assert("./storage"@ + seq!['/'] =~= "./storage/"@);
    let file = default_file(url);
    assert("./storage/"@ =~= file.take("./storage/"@.len() as int));
}

/// What an export does and gives, whatever its steps come to: it succeeds exactly where
/// all three do, and else gives the first error and takes no step after it. Where the
/// directory cannot be created no file is touched. Where it succeeds the file holds the
/// data and nothing else, the other files are as they were, and doing it again changes
/// nothing.
pub proof fn law_export_gives_the_first_error<E>(
    outcomes: ExportOutcomes<E>,
    files: Map<Seq<char>, Seq<u8>>,
    file: Seq<char>,
    data: Seq<u8>,
)
    ensures
        ({
            let (steps, result) = export_run(ExportStep::CreateDirectory, outcomes);
            let after = files_after(files, file, data, steps);
            &&& result is Ok == (outcomes.directory is Ok && outcomes.file is Ok
                && outcomes.data is Ok)
            &&& outcomes.directory is Err ==> result == outcomes.directory && steps == seq![
                ExportStep::CreateDirectory,
            ] && after == files
            &&& outcomes.directory is Ok && outcomes.file is Err ==> result == outcomes.file
                && steps == seq![ExportStep::CreateDirectory, ExportStep::CreateFile]
            &&& outcomes.directory is Ok && outcomes.file is Ok ==> result == outcomes.data
                && steps == seq![
                ExportStep::CreateDirectory,
                ExportStep::CreateFile,
                ExportStep::WriteData,
            ]
            &&& result is Ok ==> after == files.insert(file, data) && files_after(
                after,
                file,
                data,
                steps,
            ) == after
        }),
{
    reveal_with_fuel(export_run, 4);
    reveal_with_fuel(files_after, 4);
    let (steps, result) = export_run(ExportStep::CreateDirectory, outcomes);
    if outcomes.directory is Err {
        assert(steps.drop_last() =~= Seq::empty());
    } else if outcomes.file is Err {
        assert(steps =~= seq![ExportStep::CreateDirectory, ExportStep::CreateFile]);
    } else {
        assert(steps =~= seq![
            ExportStep::CreateDirectory,
            ExportStep::CreateFile,
            ExportStep::WriteData,
        ]);
        assert(steps.drop_last() =~= seq![ExportStep::CreateDirectory, ExportStep::CreateFile]);
        assert(steps.drop_last().drop_last() =~= seq![ExportStep::CreateDirectory]);
        assert(steps.drop_last().drop_last().drop_last() =~= Seq::empty());
        if outcomes.data is Ok {
            assert(outcomes.data->Ok_0 == result->Ok_0);
        }
        let after = files_after(files, file, data, steps);
        assert(Seq::<u8>::empty() + data =~= data);
        assert(after =~= files.insert(file, data));
        assert(files_after(after, file, data, steps) =~= after);
    }
}

/// A budget sets the limit of every path in it and of no other, where no path occurs
/// twice.
pub proof fn law_budget_sets_every_limit(entries: Seq<(String, u32)>)
    requires
        forall|i: int, j: int|
            0 <= i < j < entries.len() ==> (#[trigger] entries[i]).0@ != (#[trigger] entries[j]).0@,
    ensures
        forall|i: int|
            0 <= i < entries.len() ==> limits_map(entries).contains_key(
                (#[trigger] entries[i]).0@,
            ) && limits_map(entries)[entries[i].0@] == entries[i].1,
        forall|path: Seq<char>| #[trigger]
            limits_map(entries).contains_key(path) ==> exists|i: int|
                0 <= i < entries.len() && (#[trigger] entries[i]).0@ == path,
    decreases entries.len(),
{
    if entries.len() > 0 {
        let front = entries.drop_last();
        let last = entries.len() - 1;
        assert forall|i: int, j: int| 0 <= i < j < front.len() implies (#[trigger] front[i]).0@ != (
        #[trigger] front[j]).0@ by {
            assert(front[i] == entries[i] && front[j] == entries[j]);
        }
        law_budget_sets_every_limit(front);
        assert forall|i: int| 0 <= i < entries.len() implies limits_map(entries).contains_key(
            (#[trigger] entries[i]).0@,
        ) && limits_map(entries)[entries[i].0@] == entries[i].1 by {
            if i < last {
                assert(front[i] == entries[i]);
                assert(entries[i].0@ != entries[last].0@);
            }
        }
        assert forall|path: Seq<char>| #[trigger]
            limits_map(entries).contains_key(path) implies exists|i: int|
            0 <= i < entries.len() && (#[trigger] entries[i]).0@ == path by {
            if limits_map(front).contains_key(path) {
                let i = choose|i: int| 0 <= i < front.len() && (#[trigger] front[i]).0@ == path;
                assert(entries[i].0@ == path);
            } else {
                assert(entries[last].0@ == path);
            }
        }
    }
}

/// Where no two paths differ in capitals alone, the limits that a crawl ends up with
/// are fixed by the budget.
pub proof fn law_budget_is_determined(
    limits: Map<Seq<char>, u32>,
    one: Map<Seq<char>, u32>,
    other: Map<Seq<char>, u32>,
)
    requires
        folds(one, limits),
        folds(other, limits),
        forall|p: Seq<char>, q: Seq<char>| #[trigger]
            limits.contains_key(p) && #[trigger] limits.contains_key(q) && lower(p) == lower(q)
                ==> p == q,
    ensures
        one == other,
        forall|p: Seq<char>| #[trigger] limits.contains_key(p) ==> one[lower(p)] == limits[p],
{
    assert forall|k: Seq<char>| one.contains_key(k) == other.contains_key(k) by {
        if one.contains_key(k) {
            let p = choose|p: Seq<char>|
                #![trigger limits.contains_key(p)]
                limits.contains_key(p) && lower(p) == k && limits[p] == one[k];
            assert(other.contains_key(lower(p)));
        }
        if other.contains_key(k) {
            let p = choose|p: Seq<char>|
                #![trigger limits.contains_key(p)]
                limits.contains_key(p) && lower(p) == k && limits[p] == other[k];
            assert(one.contains_key(lower(p)));
        }
    }
    assert forall|k: Seq<char>| one.contains_key(k) implies one[k] == other[k] by {
        let p = choose|p: Seq<char>|
            #![trigger limits.contains_key(p)]
            limits.contains_key(p) && lower(p) == k && limits[p] == one[k];
        assert(other.contains_key(k));
        let q = choose|q: Seq<char>|
            #![trigger limits.contains_key(q)]
            limits.contains_key(q) && lower(q) == k && limits[q] == other[k];
        assert(p == q);
    }
    assert(one =~= other);
    assert forall|p: Seq<char>| #[trigger] limits.contains_key(p) implies one[lower(p)]
        == limits[p] by {
        assert(one.contains_key(lower(p)));
        let q = choose|q: Seq<char>|
            #![trigger limits.contains_key(q)]
            limits.contains_key(q) && lower(q) == lower(p) && limits[q] == one[lower(p)];
        assert(p == q);
    }
}

/// Fields that are not accepted leave no trace in the headers.
pub proof fn law_rejected_fields_leave_no_trace(fields: Seq<HeaderField>)
    ensures
        headers_of(fields) == headers_of(fields.filter(|f: HeaderField| accepted(f))),
    decreases fields.len(),
{
    let keep = |f: HeaderField| accepted(f);
    reveal(Seq::filter);
    if fields.len() > 0 {
        law_rejected_fields_leave_no_trace(fields.drop_last());
        if accepted(fields.last()) {
            let kept = fields.drop_last().filter(keep);
            assert(fields.filter(keep) =~= kept.push(fields.last()));
            assert(kept.push(fields.last()).drop_last() =~= kept);
        }
    }
}

proof fn lemma_token_case(c: char, d: char)
    requires
        lower_char(c) == lower_char(d),
        is_token_char(c),
    ensures
        is_token_char(d),
{
}

proof fn lemma_name_case(a: Seq<char>, b: Seq<char>)
    requires
        lower(a) == lower(b),
        valid_header_name(a),
    ensures
        valid_header_name(b),
{
    assert(lower(a).len() == a.len() && lower(b).len() == b.len());
    assert forall|i: int| 0 <= i < b.len() implies is_token_char(#[trigger] b[i]) by {
        assert(lower(a)[i] == lower_char(a[i]) && lower(b)[i] == lower_char(b[i]));
        assert(is_token_char(a[i]));
        lemma_token_case(a[i], b[i]);
    }
}

/// Header names that differ in capitals alone are one name: writing the names of the
/// fields in other capitals gives the same headers.
pub proof fn law_header_names_ignore_capitals(a: Seq<HeaderField>, b: Seq<HeaderField>)
    requires
        a.len() == b.len(),
        forall|i: int|
            0 <= i < a.len() ==> lower((#[trigger] a[i]).name@) == lower((#[trigger] b[i]).name@)
                && value_text(a[i].value) == value_text(b[i].value),
    ensures
        headers_of(a) == headers_of(b),
    decreases a.len(),
{
    if a.len() > 0 {
        let last = a.len() - 1;
        assert(lower(a[last].name@) == lower(b[last].name@));
        assert forall|i: int| 0 <= i < a.drop_last().len() implies lower(
            (#[trigger] a.drop_last()[i]).name@,
        ) == lower((#[trigger] b.drop_last()[i]).name@) && value_text(a.drop_last()[i].value)
            == value_text(b.drop_last()[i].value) by {
            assert(a.drop_last()[i] == a[i]);
            assert(b.drop_last()[i] == b[i]);
        }
        law_header_names_ignore_capitals(a.drop_last(), b.drop_last());
        if valid_header_name(a[last].name@) {
            lemma_name_case(a[last].name@, b[last].name@);
        }
        if valid_header_name(b[last].name@) {
            lemma_name_case(b[last].name@, a[last].name@);
        }
    }
}

} // verus!
