//! Snapshots: the whole store as a list of entries, as it is written out
//! after an insert and loaded again when the process starts.

use crate::article::{Article, ArticleView};
use vstd::prelude::*;

verus! {

/// One line of a snapshot: an identifier and the article stored under it.
#[derive(Debug, PartialEq, Eq)]
pub struct Entry {
    pub id: u128,
    pub article: Article,
}

impl View for Entry {
    type V = (u128, ArticleView);

    open spec fn view(&self) -> (u128, ArticleView) {
        (self.id, self.article@)
    }
}

/// What a list of entries says, entry by entry.
pub open spec fn entry_views(entries: Seq<Entry>) -> Seq<(u128, ArticleView)> {
    entries.map_values(|entry: Entry| entry@)
}

/// The identifiers of `entries`, in their order.
pub open spec fn entry_ids(entries: Seq<(u128, ArticleView)>) -> Seq<u128> {
    entries.map_values(|entry: (u128, ArticleView)| entry.0)
}

/// Whether `entries` is a snapshot of `articles`: it holds every identifier
/// of `articles` exactly once, each with the article stored under it.
pub open spec fn is_snapshot_of(
    entries: Seq<(u128, ArticleView)>,
    articles: Map<u128, ArticleView>,
) -> bool {
    &&& entry_ids(entries).no_duplicates()
    &&& entry_ids(entries).to_set() == articles.dom()
    &&& forall|i: int|
        0 <= i < entries.len() ==> articles[(#[trigger] entries[i]).0] == entries[i].1
}

/// The store contents after `entries` have been loaded into `articles` in
/// their order; a later entry replaces an earlier one with the same
/// identifier.
pub open spec fn loaded(
    articles: Map<u128, ArticleView>,
    entries: Seq<(u128, ArticleView)>,
) -> Map<u128, ArticleView>
    decreases entries.len(),
{
    if entries.len() == 0 {
        articles
    } else {
        loaded(articles, entries.drop_last()).insert(entries.last().0, entries.last().1)
    }
}

/// Loading takes nothing away: afterwards the store holds the identifiers
/// that it held before and those of the entries, and no others.
pub proof fn lemma_loaded_ids(articles: Map<u128, ArticleView>, entries: Seq<(u128, ArticleView)>)
    ensures
        loaded(articles, entries).dom() == articles.dom().union(entry_ids(entries).to_set()),
    decreases entries.len(),
{
    if entries.len() > 0 {
        let earlier = entries.drop_last();
        lemma_loaded_ids(articles, earlier);
        assert(entry_ids(entries) =~= entry_ids(earlier).push(entries.last().0));
        entry_ids(earlier).lemma_push_to_set_commute(entries.last().0);
    }
    assert(loaded(articles, entries).dom() =~= articles.dom().union(
        entry_ids(entries).to_set(),
    ));
}

/// Loading the first `k` entries of a snapshot into an empty store gives
/// the articles of the snapshot's store under the first `k` identifiers.
proof fn lemma_prefix_reloads(
    entries: Seq<(u128, ArticleView)>,
    articles: Map<u128, ArticleView>,
    k: nat,
)
    requires
        is_snapshot_of(entries, articles),
        k <= entries.len(),
    ensures
        loaded(Map::empty(), entries.take(k as int)) == articles.restrict(
            entry_ids(entries).take(k as int).to_set(),
        ),
    decreases k,
{
    let ids = entry_ids(entries);
    if k > 0 {
        lemma_prefix_reloads(entries, articles, (k - 1) as nat);
        assert(entries.take(k as int).drop_last() =~= entries.take(k - 1));
        assert(ids.take(k as int) =~= ids.take(k - 1).push(ids[k - 1]));
        ids.take(k - 1).lemma_push_to_set_commute(ids[k - 1]);
        assert(articles.contains_key(ids[k - 1])) by {
            assert(ids.to_set().contains(ids[k - 1]));
        }
    }
    assert(loaded(Map::empty(), entries.take(k as int)) =~= articles.restrict(
        ids.take(k as int).to_set(),
    ));
}

/// Reloading: a snapshot loaded into an empty store gives back the very
/// store that the snapshot was taken of.
pub proof fn lemma_snapshot_reloads(
    entries: Seq<(u128, ArticleView)>,
    articles: Map<u128, ArticleView>,
)
    requires
        is_snapshot_of(entries, articles),
    ensures
        loaded(Map::empty(), entries) == articles,
{
    lemma_prefix_reloads(entries, articles, entries.len());
    assert(entries.take(entries.len() as int) =~= entries);
    assert(entry_ids(entries).take(entries.len() as int) =~= entry_ids(entries));
    assert(articles.restrict(articles.dom()) =~= articles);
}

} // verus!
