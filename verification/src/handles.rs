//! Registered tasks: an insertion-ordered table from ids to task handles.
use vstd::prelude::*;

use indexmap::IndexMap;

verus! {

/// The insertion-ordered table of the `indexmap` crate.
#[verifier::external_type_specification]
#[verifier::external_body]
#[verifier::reject_recursive_types(K)]
#[verifier::reject_recursive_types(V)]
#[verifier::reject_recursive_types(S)]
pub struct ExIndexMap<K, V, S>(indexmap::IndexMap<K, V, S>);

/// What a table holds: its ids and their handles, in the order of the table.
pub uninterp spec fn handle_entries(table: IndexMap<u32, u64>) -> Seq<(u32, u64)>;

/// No entries.
pub open spec fn no_entries() -> Seq<(u32, u64)> {
    Seq::empty()
}

/// The position of an id among the entries; their number where it is not there.
pub open spec fn slot(entries: Seq<(u32, u64)>, id: u32) -> int
    decreases entries.len(),
{
    if entries.len() == 0 || entries[0].0 == id {
        0
    } else {
        1 + slot(entries.skip(1), id)
    }
}

/// Whether an id is registered.
pub open spec fn registered(entries: Seq<(u32, u64)>, id: u32) -> bool {
    slot(entries, id) < entries.len()
}

/// The entries with a handle put under an id: a registered id keeps its place and
/// gets the new handle, another one goes to the end.
pub open spec fn with_entry(entries: Seq<(u32, u64)>, id: u32, handle: u64) -> Seq<(u32, u64)> {
    if registered(entries, id) {
        entries.update(slot(entries, id), (id, handle))
    } else {
        entries.push((id, handle))
    }
}

/// The entries without an id: those behind the one removed move up.
pub open spec fn without_entry(entries: Seq<(u32, u64)>, id: u32) -> Seq<(u32, u64)> {
    if registered(entries, id) {
        entries.remove(slot(entries, id))
    } else {
        entries
    }
}

/// The id that the next handle gets: one above the greatest id in use.
pub open spec fn following_id(entries: Seq<(u32, u64)>) -> int
    decreases entries.len(),
{
    if entries.len() == 0 {
        0
    } else {
        let before = following_id(entries.drop_last());
        if entries.last().0 < before {
            before
        } else {
            entries.last().0 + 1
        }
    }
}

/// Whether the next handle can get an id.
pub open spec fn has_room(entries: Seq<(u32, u64)>) -> bool {
    following_id(entries) <= u32::MAX
}

/// The entries after one more handle has been registered, at the end.
pub open spec fn enrolled(entries: Seq<(u32, u64)>, handle: u64) -> Seq<(u32, u64)> {
    entries.push((following_id(entries) as u32, handle))
}

/// The handles of the entries, in their order.
pub open spec fn handles_of(entries: Seq<(u32, u64)>) -> Seq<u64> {
    entries.map_values(|e: (u32, u64)| e.1)
}

/// Whether the ids grow along the table; then no id occurs twice.
pub open spec fn ascending_ids(entries: Seq<(u32, u64)>) -> bool {
    forall|i: int, j: int|
        0 <= i < j < entries.len() ==> (#[trigger] entries[i]).0 < (#[trigger] entries[j]).0
}

/// `IndexMap::new`: a table without entries.
#[verifier::external_body]
pub(crate) fn new_table() -> (table: IndexMap<u32, u64>)
    ensures
        handle_entries(table) == no_entries(),
{
    IndexMap::new()
}

/// `IndexMap::len`: the number of entries.
#[verifier::external_body]
fn table_len(table: &IndexMap<u32, u64>) -> (r: usize)
    ensures
        r == handle_entries(*table).len(),
{
    table.len()
}

/// `IndexMap::last`: the entry at the end of the order, where there is one.
#[verifier::external_body]
fn table_last(table: &IndexMap<u32, u64>) -> (r: Option<(u32, u64)>)
    ensures
        r is Some == (handle_entries(*table).len() > 0),
        r matches Some(e) ==> e == handle_entries(*table).last(),
{
    table.last().map(|e| (*e.0, *e.1))
}

/// `IndexMap::get`: the handle under an id, where the id is registered.
#[verifier::external_body]
fn table_get(table: &IndexMap<u32, u64>, id: u32) -> (r: Option<u64>)
    ensures
        r is Some == registered(handle_entries(*table), id),
        r matches Some(h) ==> h == handle_entries(*table)[slot(handle_entries(*table), id)].1,
{
    table.get(&id).copied()
}

/// `IndexMap::insert`: the value under a present key is replaced in its place, and a
/// new key goes to the end of the order.
#[verifier::external_body]
fn table_insert(table: &mut IndexMap<u32, u64>, id: u32, handle: u64)
    ensures
        handle_entries(*final(table)) == with_entry(handle_entries(*old(table)), id, handle),
{
    table.insert(id, handle);
}

/// `IndexMap::shift_remove_entry`: a present key is removed with its value, and the
/// entries behind it keep their order.
#[verifier::external_body]
fn table_remove(table: &mut IndexMap<u32, u64>, id: u32)
    ensures
        handle_entries(*final(table)) == without_entry(handle_entries(*old(table)), id),
{
    table.shift_remove_entry(&id);
}

/// `IndexMap::drain` over the full range: hands out every entry in order and leaves
/// the table empty.
#[verifier::external_body]
fn table_drain(table: &mut IndexMap<u32, u64>) -> (r: Vec<(u32, u64)>)
    ensures
        r@ == handle_entries(*old(table)),
        handle_entries(*final(table)) == no_entries(),
{
    table.drain(..).collect()
}

proof fn lemma_slot_first(entries: Seq<(u32, u64)>, id: u32)
    ensures
        0 <= slot(entries, id) <= entries.len(),
        registered(entries, id) ==> entries[slot(entries, id)].0 == id,
        forall|i: int| 0 <= i < slot(entries, id) ==> (#[trigger] entries[i]).0 != id,
    decreases entries.len(),
{
    if entries.len() > 0 && entries[0].0 != id {
        lemma_slot_first(entries.skip(1), id);
        assert forall|i: int| 0 <= i < slot(entries, id) implies (#[trigger] entries[i]).0
            != id by {
            if i > 0 {
                assert(entries.skip(1)[i - 1] == entries[i]);
            }
        }
    }
}

/// An id is registered exactly when some entry has it, and its slot is the place of
/// that entry.
pub proof fn lemma_slot(entries: Seq<(u32, u64)>, id: u32)
    ensures
        0 <= slot(entries, id) <= entries.len(),
        registered(entries, id) ==> entries[slot(entries, id)].0 == id,
        registered(entries, id) == (exists|i: int|
            0 <= i < entries.len() && (#[trigger] entries[i]).0 == id),
        ascending_ids(entries) ==> forall|i: int|
            0 <= i < entries.len() && (#[trigger] entries[i]).0 == id ==> slot(entries, id) == i,
{
    lemma_slot_first(entries, id);
}

/// The next id is above every id in use, and one above one of them.
pub proof fn lemma_following_id(entries: Seq<(u32, u64)>)
    ensures
        following_id(entries) >= 0,
        forall|i: int| 0 <= i < entries.len() ==> (#[trigger] entries[i]).0 < following_id(entries),
        entries.len() > 0 ==> exists|i: int|
            0 <= i < entries.len() && (#[trigger] entries[i]).0 + 1 == following_id(entries),
    decreases entries.len(),
{
    if entries.len() > 0 {
        let front = entries.drop_last();
        let last = entries.len() - 1;
        lemma_following_id(front);
        assert forall|i: int| 0 <= i < entries.len() implies (#[trigger] entries[i]).0
            < following_id(entries) by {
            if i < last {
                assert(front[i] == entries[i]);
            }
        }
        if entries[last].0 < following_id(front) {
            let i = choose|i: int|
                0 <= i < front.len() && (#[trigger] front[i]).0 + 1 == following_id(front);
            assert(entries[i].0 + 1 == following_id(entries));
        } else {
            assert(entries[last].0 + 1 == following_id(entries));
        }
    }
}

/// Where the ids grow along the table, the next one is one above the last.
proof fn lemma_following_last(entries: Seq<(u32, u64)>)
    requires
        ascending_ids(entries),
        entries.len() > 0,
    ensures
        following_id(entries) == entries.last().0 + 1,
{
    lemma_following_id(entries);
    let i = choose|i: int|
        0 <= i < entries.len() && (#[trigger] entries[i]).0 + 1 == following_id(entries);
    assert(entries[entries.len() - 1].0 < following_id(entries));
}

/// A new id goes to the end of the table, and the ids still grow along it.
pub proof fn lemma_enrolled(entries: Seq<(u32, u64)>, handle: u64)
    requires
        ascending_ids(entries),
        has_room(entries),
    ensures
        with_entry(entries, following_id(entries) as u32, handle) == enrolled(entries, handle),
        ascending_ids(enrolled(entries, handle)),
        following_id(enrolled(entries, handle)) == following_id(entries) + 1,
{
    lemma_following_id(entries);
    assert(enrolled(entries, handle).drop_last() =~= entries);
    lemma_slot(entries, following_id(entries) as u32);
}

/// The ids still grow along the table after one has been removed.
pub proof fn lemma_without_entry(entries: Seq<(u32, u64)>, id: u32)
    requires
        ascending_ids(entries),
    ensures
        ascending_ids(without_entry(entries, id)),
        !registered(without_entry(entries, id), id),
        following_id(without_entry(entries, id)) <= following_id(entries),
{
    let after = without_entry(entries, id);
    lemma_slot(entries, id);
    lemma_slot(after, id);
    let s = slot(entries, id);
    if registered(entries, id) {
        assert forall|i: int, j: int| 0 <= i < j < after.len() implies (#[trigger] after[i]).0 < (
        #[trigger] after[j]).0 by {
            assert(after[i] == if i < s { entries[i] } else { entries[i + 1] });
            assert(after[j] == if j < s { entries[j] } else { entries[j + 1] });
        }
        assert forall|i: int| 0 <= i < after.len() implies (#[trigger] after[i]).0 != id by {
            assert(after[i] == if i < s { entries[i] } else { entries[i + 1] });
        }
        lemma_following_id(entries);
        lemma_following_id(after);
        if after.len() > 0 {
            let i = choose|i: int|
                0 <= i < after.len() && (#[trigger] after[i]).0 + 1 == following_id(after);
            assert(after[i] == if i < s { entries[i] } else { entries[i + 1] });
        }
    }
}

/// Whether the next handle can get an id.
pub(crate) fn room_left(table: &IndexMap<u32, u64>) -> (r: bool)
    requires
        ascending_ids(handle_entries(*table)),
    ensures
        r == has_room(handle_entries(*table)),
{
    proof {
        if handle_entries(*table).len() > 0 {
            lemma_following_last(handle_entries(*table));
        }
    }
    match table_last(table) {
        Some(last) => last.0 < u32::MAX,
        None => true,
    }
}

/// Registers a handle under the next id.
pub(crate) fn enroll(table: &mut IndexMap<u32, u64>, handle: u64) -> (id: u32)
    requires
        has_room(handle_entries(*old(table))),
        ascending_ids(handle_entries(*old(table))),
    ensures
        id == following_id(handle_entries(*old(table))),
        handle_entries(*final(table)) == enrolled(handle_entries(*old(table)), handle),
        following_id(handle_entries(*final(table))) == id + 1,
        ascending_ids(handle_entries(*final(table))),
{
    proof {
        if handle_entries(*table).len() > 0 {
            lemma_following_last(handle_entries(*table));
        }
    }
    let id: u32 = match table_last(table) {
        Some(last) => last.0 + 1,
        None => 0,
    };
    proof {
        lemma_enrolled(handle_entries(*table), handle);
    }
    table_insert(table, id, handle);
    id
}

/// The outcome of a release.
pub struct Released {
    /// The handles of the tasks to abort, in the order of the table.
    pub aborted: Vec<u64>,
    /// Whether there was anything to release.
    pub found: bool,
}

/// The handles that a release gives up: that of one id, or all of them.
pub open spec fn released_handles(entries: Seq<(u32, u64)>, id: Option<u32>) -> Seq<u64> {
    match id {
        Some(id) => if registered(entries, id) {
            seq![entries[slot(entries, id)].1]
        } else {
            Seq::empty()
        },
        None => handles_of(entries),
    }
}

/// The entries that a release leaves.
pub open spec fn entries_left(entries: Seq<(u32, u64)>, id: Option<u32>) -> Seq<(u32, u64)> {
    match id {
        Some(id) => without_entry(entries, id),
        None => Seq::empty(),
    }
}

/// Releases the handle of one id, or all handles.
pub(crate) fn release(table: &mut IndexMap<u32, u64>, id: Option<u32>) -> (r: Released)
    requires
        ascending_ids(handle_entries(*old(table))),
    ensures
        r.aborted@ == released_handles(handle_entries(*old(table)), id),
        r.found == (r.aborted@.len() > 0),
        handle_entries(*final(table)) == entries_left(handle_entries(*old(table)), id),
        following_id(handle_entries(*final(table))) <= following_id(handle_entries(*old(table))),
        ascending_ids(handle_entries(*final(table))),
{
    let ghost before = handle_entries(*table);
    proof {
        lemma_following_id(before);
    }
    match id {
        Some(id) => match table_get(table, id) {
            Some(handle) => {
                table_remove(table, id);
                proof {
                    lemma_without_entry(before, id);
                }
                let mut aborted: Vec<u64> = Vec::new();
                aborted.push(handle);
                Released { aborted, found: true }
            },
            None => Released { aborted: Vec::new(), found: false },
        },
        None => {
            let keys: usize = table_len(table);
            let drained = table_drain(table);
            let mut aborted: Vec<u64> = Vec::new();
            for i in 0..drained.len()
                invariant
                    drained@ == before,
                    aborted@ == handles_of(before).take(i as int),
            {
                aborted.push(drained[i].1);
                assert(handles_of(before).take(i + 1) =~= handles_of(before).take(i as int).push(
                    before[i as int].1,
                ));
            }
            assert(handles_of(before).take(before.len() as int) =~= handles_of(before));
            Released { aborted, found: keys > 0 }
        },
    }
}

} // verus!
