//! The in-memory article store.

use crate::article::{Article, ArticleView};
use crate::id_gen::{
    allocations, can_allocate, has_unused, lemma_allocations_from_nothing, lemma_allocations_len,
    lemma_room_leaves_unused, lemma_smallest_unused_exists, smallest_unused, IdGenerator,
};
use crate::random::{is_random_id, lemma_random_id_is_no_ticket, random_id};
use crate::snapshot::{entry_ids, entry_views, is_snapshot_of, loaded, Entry};
use std::collections::{HashMap, HashSet};
use vstd::std_specs::iter::IteratorSpec;
use vstd::prelude::*;

verus! {

/// The sequential tickets among `ids`: those identifiers that fit in 64
/// bits, which is where the sequential allocator draws from.
pub open spec fn tickets(ids: Set<u128>) -> Set<u64> {
    Set::new(|ticket: u64| ids.contains(ticket as u128))
}

/// The identifier that a sequential insert returns when `ids` are the
/// identifiers in the store: the smallest positive integer not among them.
pub open spec fn next_ticket_of(ids: Set<u128>) -> u128 {
    smallest_unused(tickets(ids)) as u128
}

/// The store contents after `articles` have been inserted into `store` one
/// after the other, each by a sequential insert.
pub open spec fn after_inserts(
    store: Map<u128, ArticleView>,
    articles: Seq<ArticleView>,
) -> Map<u128, ArticleView>
    decreases articles.len(),
{
    if articles.len() == 0 {
        store
    } else {
        after_inserts(
            store.insert(next_ticket_of(store.dom()), articles.first()),
            articles.drop_first(),
        )
    }
}

/// What a lookup found, as plain values.
pub open spec fn found_view(found: Option<&Article>) -> Option<ArticleView> {
    match found {
        Some(article) => Some(article@),
        None => None,
    }
}

/// The articles of the running process, each under its identifier.
pub struct ArticleStore {
    articles: HashMap<u128, Article>,
}

impl View for ArticleStore {
    type V = Map<u128, ArticleView>;

    closed spec fn view(&self) -> Map<u128, ArticleView> {
        self.articles@.map_values(|article: Article| article@)
    }
}

impl ArticleStore {
    /// A store without articles.
    pub fn new() -> (store: Self)
        ensures
            store@ == Map::<u128, ArticleView>::empty(),
    {
        Self { articles: HashMap::new() }
    }

    /// The article stored under `id`, if there is one.
    pub fn get(&self, id: u128) -> (found: Option<&Article>)
        ensures
            found_view(found) == self@.get(id),
    {
        self.articles.get(&id)
    }

    /// Every identifier in the store, once each, in no particular order.
    /// There are as many as there are articles, and `get` finds an article
    /// under each.
    pub fn list(&self) -> (ids: Vec<u128>)
        ensures
            ids@.no_duplicates(),
            ids@.to_set() == self@.dom(),
            ids@.len() == self@.dom().len(),
            forall|i: int| 0 <= i < ids@.len() ==> self@.contains_key(#[trigger] ids@[i]),
    {
        let mut ids: Vec<u128> = Vec::new();
        let ghost keys = self.articles.keys().remaining().unref();
        for id in it: self.articles.keys()
            invariant
                it.seq().unref() == keys,
                it.seq().no_duplicates(),
                keys.to_set() == self.articles@.dom(),
                keys.len() == self.articles@.dom().len(),
                ids@ == keys.take(it.index()),
        {
            ids.push(*id);
        }
        assert(ids@ =~= keys);
        ids
    }

    /// How many articles the store holds.
    pub fn len(&self) -> (count: usize)
        ensures
            self@.dom().finite(),
            count == self@.dom().len(),
    {
        assert(self@.dom() =~= self.articles@.dom());
        self.articles.len()
    }

    /// The sequential tickets in use, as the allocator wants them.
    fn used_tickets(&self) -> (used: HashSet<u64>)
        ensures
            used@ == tickets(self@.dom()),
    {
        let mut used: HashSet<u64> = HashSet::new();
        let ghost keys = self.articles.keys().remaining().unref();
        assert(used@ =~= tickets(keys.take(0).to_set()));
        for id in it: self.articles.keys()
            invariant
                it.seq().unref() == keys,
                keys.to_set() == self.articles@.dom(),
                used@ == tickets(keys.take(it.index()).to_set()),
        {
            proof {
                let seen = keys.take(it.index());
                assert(keys.take(it.index() + 1) =~= seen.push(*id));
                seen.lemma_push_to_set_commute(*id);
            }
            if *id <= u64::MAX as u128 {
                used.insert(*id as u64);
            }
            assert(used@ =~= tickets(keys.take(it.index() + 1).to_set()));
        }
        assert(keys.take(keys.len() as int) =~= keys);
        assert(self@.dom() =~= self.articles@.dom());
        used
    }

    /// Whether the sequential allocator still has a ticket to give. By
    /// `lemma_room_leaves_free_ticket` it has, as long as the store holds
    /// fewer than `u64::MAX` articles.
    pub open spec fn has_free_ticket(&self) -> bool {
        has_unused(tickets(self@.dom()))
    }

    /// The identifier that the next sequential insert will return: the
    /// smallest positive integer that is no identifier in the store.
    pub open spec fn next_ticket(&self) -> u128 {
        next_ticket_of(self@.dom())
    }

    /// Stores `article` under the smallest positive integer that is not yet
    /// an identifier in the store, and returns that identifier. Nothing
    /// that was stored before is replaced.
    pub fn insert(&mut self, article: Article) -> (id: u128)
        requires
            old(self).has_free_ticket(),
        ensures
            id == old(self).next_ticket(),
            1 <= id <= u64::MAX,
            !old(self)@.contains_key(id),
            forall|smaller: u128| 1 <= smaller < id ==> old(self)@.contains_key(smaller),
            final(self)@ == old(self)@.insert(id, article@),
            final(self)@.get(id) == Some(article@),
    {
        let mut generator = IdGenerator::with_used_ids(self.used_tickets());
        let ticket = generator.generate_unique_id();
        assert forall|smaller: u128| 1 <= smaller < ticket implies old(self)@.contains_key(
            smaller,
        ) by {
            assert(tickets(old(self)@.dom()).contains(smaller as u64));
        }
        let id = ticket as u128;
        self.insert_with_id(id, article);
        id
    }

    /// Stores `article` under a freshly drawn random identifier and returns
    /// that identifier. No check is made against the identifiers already in
    /// the store: should the draw repeat one, the new article replaces the
    /// old one.
    pub fn insert_random(&mut self, article: Article) -> (id: u128)
        ensures
            is_random_id(id),
            id > u64::MAX,
            final(self)@ == old(self)@.insert(id, article@),
            final(self)@.get(id) == Some(article@),
    {
        let id = random_id();
        proof {
            lemma_random_id_is_no_ticket(id);
        }
        self.insert_with_id(id, article);
        id
    }

    /// Records `article` under `id`, in place of whatever was stored there.
    pub fn insert_with_id(&mut self, id: u128, article: Article)
        ensures
            final(self)@ == old(self)@.insert(id, article@),
            final(self)@.get(id) == Some(article@),
    {
        self.articles.insert(id, article);
    }

    /// Loads `entries` into the store in their order. A later entry replaces
    /// an earlier one, or a stored article, with the same identifier.
    pub fn extend(&mut self, entries: Vec<Entry>)
        ensures
            final(self)@ == loaded(old(self)@, entry_views(entries@)),
    {
        let ghost all = entry_views(entries@);
        for entry in it: entries
            invariant
                entry_views(it.seq()) == all,
                self@ == loaded(old(self)@, all.take(it.index())),
        {
            assert(all.take(it.index() + 1).drop_last() =~= all.take(it.index()));
            self.insert_with_id(entry.id, entry.article);
        }
        assert(all.take(all.len() as int) =~= all);
    }

    /// The whole store as a list of entries, ready to be written out.
    pub fn snapshot(&self) -> (entries: Vec<Entry>)
        ensures
            is_snapshot_of(entry_views(entries@), self@),
            entries@.len() == self@.dom().len(),
    {
        let mut entries: Vec<Entry> = Vec::new();
        let ghost pairs = self.articles.iter().remaining().unref();
        for pair in it: self.articles.iter()
            invariant
                it.seq().unref() == pairs,
                it.seq().no_duplicates(),
                pairs.to_set() == self.articles@.kv_pairs(),
                pairs.len() == self.articles@.dom().len(),
                forall|j: int|
                    0 <= j < pairs.len() ==> self.articles@.contains_key((#[trigger] pairs[j]).0)
                        && self.articles@[pairs[j].0] == pairs[j].1,
                entries@.len() == it.index(),
                forall|j: int|
                    0 <= j < it.index() ==> (#[trigger] entries@[j])@ == (pairs[j].0, pairs[j].1@),
        {
            let (id, article) = pair;
            entries.push(Entry { id: *id, article: article.clone() });
        }
        proof {
            let ids = entry_ids(entry_views(entries@));
            assert(self@.dom() =~= self.articles@.dom());
            // Two entries with one identifier would be one pair of the map
            // listed twice.
            assert forall|i: int, j: int| 0 <= i < j < ids.len() implies ids[i] != ids[j] by {
                if ids[i] == ids[j] {
                    assert(pairs[i] == pairs[j]);
                }
            }
            // Every identifier of the map is listed, as the pairs are the
            // map's pairs.
            assert forall|id: u128| self@.dom().contains(id) implies ids.to_set().contains(
                id,
            ) by {
                let pair = (id, self.articles@[id]);
                assert(pairs.to_set().contains(pair));
                let j = choose|j: int| 0 <= j < pairs.len() && pairs[j] == pair;
                assert(ids[j] == id);
            }
            assert(ids.to_set() =~= self@.dom());
        }
        entries
    }
}

/// Round trip: what an insert stores under an identifier is what `get`
/// finds under it afterwards, and a lookup under any other identifier
/// finds what it found before.
pub proof fn lemma_get_after_insert(
    articles: Map<u128, ArticleView>,
    id: u128,
    article: ArticleView,
    other: u128,
)
    ensures
        articles.insert(id, article).get(id) == Some(article),
        other != id ==> articles.insert(id, article).get(other) == articles.get(other),
{
}

/// A store with fewer articles than there are positive 64-bit integers
/// has a sequential ticket to give.
pub proof fn lemma_room_leaves_free_ticket(ids: Set<u128>)
    requires
        ids.finite(),
        ids.len() < u64::MAX,
    ensures
        tickets(ids).finite(),
        tickets(ids).len() <= ids.len(),
        has_unused(tickets(ids)),
{
    let fits = |id: u128| id <= u64::MAX;
    let narrow = |id: u128| id as u64;
    let small = ids.filter(fits);
    ids.lemma_len_filter(fits);
    assert forall|ticket: u64| small.map(narrow).contains(ticket) <==> tickets(ids).contains(
        ticket,
    ) by {
        if tickets(ids).contains(ticket) {
            assert(small.contains(ticket as u128) && narrow(ticket as u128) == ticket);
        }
    }
    assert(small.map(narrow) =~= tickets(ids));
    vstd::set_lib::lemma_map_size_bound(small, tickets(ids), narrow);
    lemma_room_leaves_unused(tickets(ids));
}

/// Sequential inserts in a row: each article lands under the identifier
/// that the allocator gives at its turn, the articles that were there stay
/// as they were, and the store grows by exactly as many identifiers as
/// articles were inserted.
pub proof fn lemma_sequential_inserts(store: Map<u128, ArticleView>, articles: Seq<ArticleView>)
    requires
        store.dom().finite(),
        can_allocate(tickets(store.dom()), articles.len()),
    ensures
        ({
            let ids = allocations(tickets(store.dom()), articles.len());
            let after = after_inserts(store, articles);
            &&& after.dom().finite()
            &&& after.dom().len() == store.dom().len() + articles.len()
            &&& forall|i: int|
                0 <= i < articles.len() ==> after.get((#[trigger] ids[i]) as u128) == Some(
                    articles[i],
                )
            &&& forall|id: u128| #[trigger]
                store.contains_key(id) ==> after.get(id) == store.get(id)
            &&& forall|id: u128| #[trigger]
                after.contains_key(id) ==> store.contains_key(id) || exists|i: int|
                    0 <= i < articles.len() && #[trigger] ids[i] == id
        }),
    decreases articles.len(),
{
    if articles.len() > 0 {
        let used = tickets(store.dom());
        let ticket = smallest_unused(used);
        let id = ticket as u128;
        let next = store.insert(id, articles.first());
        let rest = articles.drop_first();
        let ids = allocations(used, articles.len());
        let later = allocations(tickets(next.dom()), rest.len());
        let after = after_inserts(store, articles);
        lemma_smallest_unused_exists(used);
        assert(tickets(next.dom()) =~= used.insert(ticket));
        lemma_sequential_inserts(next, rest);
        lemma_allocations_len(tickets(next.dom()), rest.len());
        assert(ids == seq![ticket] + later);
        // The first article is in `next` and stays; the others are those of
        // the rest, each one place further on.
        assert forall|i: int| 0 <= i < articles.len() implies after.get(
            (#[trigger] ids[i]) as u128,
        ) == Some(articles[i]) by {
            if i == 0 {
                assert(next.contains_key(id));
            } else {
                assert(ids[i] == later[i - 1] && articles[i] == rest[i - 1]);
            }
        }
        assert forall|key: u128| #[trigger] after.contains_key(key) implies store.contains_key(
            key,
        ) || exists|i: int| 0 <= i < articles.len() && #[trigger] ids[i] == key by {
            if next.contains_key(key) {
                if key == id {
                    assert(ids[0] == key);
                }
            } else {
                let i = choose|i: int| 0 <= i < rest.len() && #[trigger] later[i] == key;
                assert(ids[i + 1] == key);
            }
        }
    }
}

/// Sequential inserts into an empty store: the articles land under 1, 2, 3
/// and so on, in the order in which they were inserted, and under nothing
/// else.
pub proof fn lemma_inserts_into_empty(articles: Seq<ArticleView>)
    requires
        articles.len() <= u64::MAX,
    ensures
        ({
            let after = after_inserts(Map::empty(), articles);
            &&& after.dom() == Set::new(|id: u128| 1 <= id <= articles.len())
            &&& after.dom().len() == articles.len()
            &&& forall|i: int|
                0 <= i < articles.len() ==> after.get((i + 1) as u128) == Some(
                    #[trigger] articles[i],
                )
        }),
{
    let store = Map::<u128, ArticleView>::empty();
    let ids = allocations(tickets(store.dom()), articles.len());
    let after = after_inserts(store, articles);
    assert(tickets(store.dom()) =~= Set::<u64>::empty());
    lemma_allocations_from_nothing(articles.len());
    lemma_sequential_inserts(store, articles);
    assert forall|id: u128| 1 <= id <= articles.len() implies after.dom().contains(id) by {
        assert(after.get(ids[id - 1] as u128) == Some(articles[id - 1]));
    }
    assert(after.dom() =~= Set::new(|id: u128| 1 <= id <= articles.len()));
}

} // verus!
