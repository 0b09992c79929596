//! Crawl budgets: how the caller's limits per path become those of the crawl.
use vstd::prelude::*;

use spider::hashbrown::HashMap;
use spider::website::Website as Site;

use crate::site::{site_state, SiteState};
use crate::text::lower;

verus! {

/// The map of the `hashbrown` crate in which the crawler takes a budget.
#[verifier::external_body]
pub struct BudgetMap<'a> {
    map: HashMap<&'a str, u32>,
}

/// What a map holds: its paths and their limits.
pub uninterp spec fn budget_entries(map: BudgetMap<'_>) -> Map<Seq<char>, u32>;

/// No limits.
pub open spec fn no_limits() -> Map<Seq<char>, u32> {
    Map::empty()
}

/// The limits by path that a list of entries sets, where a later entry for the same path
/// wins.
pub open spec fn limits_map(list: Seq<(String, u32)>) -> Map<Seq<char>, u32>
    decreases list.len(),
{
    if list.len() == 0 {
        no_limits()
    } else {
        limits_map(list.drop_last()).insert(list.last().0@, list.last().1)
    }
}

/// Whether limits by path in small letters are those of a map whose paths may differ
/// in capitals: every path has a limit, and every limit is that of some path.
pub open spec fn folds(folded: Map<Seq<char>, u32>, limits: Map<Seq<char>, u32>) -> bool {
    &&& forall|path: Seq<char>| #[trigger]
        limits.contains_key(path) ==> folded.contains_key(lower(path))
    &&& forall|small: Seq<char>| #[trigger]
        folded.contains_key(small) ==> exists|path: Seq<char>|
            #![trigger limits.contains_key(path)]
            limits.contains_key(path) && lower(path) == small && limits[path] == folded[small]
}

/// `HashMap::new`: a map without entries.
#[verifier::external_body]
fn new_budget<'a>() -> (map: BudgetMap<'a>)
    ensures
        budget_entries(map) == no_limits(),
{
    BudgetMap { map: HashMap::new() }
}

/// `HashMap::insert`: the path has the limit, and the others keep theirs.
#[verifier::external_body]
fn insert_limit<'a>(map: &mut BudgetMap<'a>, path: &'a str, limit: u32)
    ensures
        budget_entries(*final(map)) == budget_entries(*old(map)).insert(path@, limit),
{
    map.map.insert(path, limit);
}

/// `Website::with_budget`: replaces the budget by the limits of the map, where paths
/// that differ only in ASCII capitals are one path and any of their limits is kept.
#[verifier::external_body]
pub(crate) fn set_budget(site: &mut Site, budget: BudgetMap<'_>)
    ensures
        site_state(*final(site)).budget is Some,
        folds(site_state(*final(site)).budget->0, budget_entries(budget)),
        site_state(*final(site)) == (SiteState {
            budget: site_state(*final(site)).budget,
            ..site_state(*old(site))
        }),
{
    site.with_budget(Some(budget.map));
}

/// The map of the limits that the entries set.
pub(crate) fn budget_map(entries: &Vec<(String, u32)>) -> (r: BudgetMap<'_>)
    ensures
        budget_entries(r) == limits_map(entries@),
{
    let mut map = new_budget();
    assert(entries@.take(0) =~= Seq::empty());
    for i in 0..entries.len()
        invariant
            budget_entries(map) == limits_map(entries@.take(i as int)),
    {
        insert_limit(&mut map, entries[i].0.as_str(), entries[i].1);
        assert(entries@.take(i + 1).drop_last() =~= entries@.take(i as int));
    }
    assert(entries@.take(entries@.len() as int) =~= entries@);
    map
}

} // verus!
