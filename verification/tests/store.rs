use article_store::article::Article;
use article_store::random::{RANDOM_MARK, RANDOM_MARK_BITS};
use article_store::snapshot::Entry;
use article_store::store::ArticleStore;
use std::collections::HashSet;

fn article(title: &str) -> Article {
    Article {
        title: title.to_string(),
        intro: format!("about {}", title),
        content: vec![format!("{} one", title), format!("{} two", title)],
        image_path: format!("{}-image", title),
    }
}

#[test]
fn empty_store_then_two_sequential_inserts() {
    let mut store = ArticleStore::new();
    let first = Article {
        title: "A".to_string(),
        intro: "i".to_string(),
        content: vec!["p1".to_string()],
        image_path: "x".to_string(),
    };
    assert_eq!(store.insert(first.clone()), 1);
    assert_eq!(store.insert(article("B")), 2);
    let listed: HashSet<u128> = store.list().into_iter().collect();
    let expected: HashSet<u128> = [1, 2].into_iter().collect();
    assert_eq!(listed, expected);
    assert_eq!(store.get(1), Some(&first));
}

#[test]
fn new_store_is_empty() {
    let store = ArticleStore::new();
    assert_eq!(store.len(), 0);
    assert!(store.list().is_empty());
    assert!(store.snapshot().is_empty());
    assert_eq!(store.get(1), None);
}

#[test]
fn insert_then_get_gives_the_article_back() {
    let mut store = ArticleStore::new();
    let written = Article {
        title: "Title".to_string(),
        intro: "Intro".to_string(),
        content: vec!["one".to_string(), String::new(), "three".to_string()],
        image_path: "picture".to_string(),
    };
    let id = store.insert(written.clone());
    let found = store.get(id).expect("the article was just stored");
    assert_eq!(found.title, "Title");
    assert_eq!(found.intro, "Intro");
    assert_eq!(found.content, vec!["one", "", "three"]);
    assert_eq!(found.image_path, "picture");
    assert_eq!(found, &written);
}

#[test]
fn get_of_an_unknown_identifier_finds_nothing() {
    let mut store = ArticleStore::new();
    store.insert(article("A"));
    assert_eq!(store.get(0), None);
    assert_eq!(store.get(2), None);
    assert_eq!(store.get(u128::MAX), None);
}

#[test]
fn list_after_inserts_has_one_identifier_per_article() {
    let mut store = ArticleStore::new();
    for k in 0..25usize {
        assert_eq!(store.len(), k);
        assert_eq!(store.list().len(), k);
        store.insert(article(&format!("article {}", k)));
    }
    let ids = store.list();
    assert_eq!(ids.len(), 25);
    let distinct: HashSet<u128> = ids.iter().copied().collect();
    assert_eq!(distinct.len(), 25);
    for id in ids {
        let found = store.get(id).expect("every listed identifier resolves");
        assert_eq!(found.title, format!("article {}", id - 1));
    }
}

#[test]
fn snapshot_loaded_at_startup_is_served_without_any_insert() {
    let mut store = ArticleStore::new();
    store.extend(vec![Entry { id: 7, article: article("seven") }]);
    assert_eq!(store.get(7), Some(&article("seven")));
    assert_eq!(store.list(), vec![7]);
}

#[test]
fn sequential_insert_fills_the_first_gap_among_loaded_identifiers() {
    let mut store = ArticleStore::new();
    store.extend(vec![
        Entry { id: 1, article: article("one") },
        Entry { id: 2, article: article("two") },
        Entry { id: 4, article: article("four") },
    ]);
    assert_eq!(store.insert(article("three")), 3);
    assert_eq!(store.insert(article("five")), 5);
    assert_eq!(store.get(3), Some(&article("three")));
    assert_eq!(store.get(4), Some(&article("four")));
}

#[test]
fn sequential_insert_ignores_identifiers_beyond_64_bits() {
    let mut store = ArticleStore::new();
    let wide = (1u128 << 64) + 1;
    store.insert_with_id(wide, article("wide"));
    store.insert_with_id(0, article("zero"));
    assert_eq!(store.insert(article("first")), 1);
    assert_eq!(store.insert(article("second")), 2);
    assert_eq!(store.get(wide), Some(&article("wide")));
    assert_eq!(store.len(), 4);
}

#[test]
fn insert_with_id_replaces_what_was_there() {
    let mut store = ArticleStore::new();
    store.insert_with_id(9, article("old"));
    store.insert_with_id(9, article("new"));
    assert_eq!(store.len(), 1);
    assert_eq!(store.get(9), Some(&article("new")));
}

#[test]
fn random_insert_returns_a_marked_identifier_that_resolves() {
    let mut store = ArticleStore::new();
    let id = store.insert_random(article("random"));
    assert_eq!(id & RANDOM_MARK_BITS, RANDOM_MARK);
    assert_eq!((id >> 76) & 0xf, 4);
    assert_eq!((id >> 62) & 0x3, 2);
    assert!(id > u64::MAX as u128);
    assert_eq!(uuid::Uuid::from_u128(id).get_version_num(), 4);
    assert_eq!(store.get(id), Some(&article("random")));
    assert_eq!(store.list(), vec![id]);
}

#[test]
fn random_inserts_do_not_repeat_themselves_here() {
    let mut store = ArticleStore::new();
    let mut ids = HashSet::new();
    for k in 0..50 {
        ids.insert(store.insert_random(article(&format!("r{}", k))));
    }
    assert_eq!(ids.len(), 50);
    assert_eq!(store.len(), 50);
}

#[test]
fn random_inserts_take_no_sequential_ticket() {
    let mut store = ArticleStore::new();
    store.insert_random(article("r1"));
    store.insert_random(article("r2"));
    assert_eq!(store.insert(article("s1")), 1);
    store.insert_random(article("r3"));
    assert_eq!(store.insert(article("s2")), 2);
    assert_eq!(store.len(), 5);
}

#[test]
fn snapshot_lists_every_article_once() {
    let mut store = ArticleStore::new();
    store.insert(article("A"));
    store.insert(article("B"));
    store.insert_with_id(40, article("C"));
    let mut snapshot = store.snapshot();
    snapshot.sort_by_key(|entry| entry.id);
    assert_eq!(
        snapshot,
        vec![
            Entry { id: 1, article: article("A") },
            Entry { id: 2, article: article("B") },
            Entry { id: 40, article: article("C") },
        ]
    );
}

#[test]
fn reloading_a_snapshot_gives_the_same_store() {
    let mut store = ArticleStore::new();
    store.insert(article("A"));
    store.insert(article("B"));
    store.insert_random(article("C"));
    store.insert_with_id(0, article("D"));
    let mut reloaded = ArticleStore::new();
    reloaded.extend(store.snapshot());
    assert_eq!(reloaded.len(), store.len());
    for id in store.list() {
        assert_eq!(reloaded.get(id), store.get(id));
    }
    let mut first = store.snapshot();
    let mut second = reloaded.snapshot();
    first.sort_by_key(|entry| entry.id);
    second.sort_by_key(|entry| entry.id);
    assert_eq!(first, second);
}

#[test]
fn extend_lets_a_later_entry_win() {
    let mut store = ArticleStore::new();
    store.insert_with_id(5, article("stored"));
    store.extend(vec![
        Entry { id: 5, article: article("earlier") },
        Entry { id: 6, article: article("six") },
        Entry { id: 5, article: article("later") },
    ]);
    assert_eq!(store.len(), 2);
    assert_eq!(store.get(5), Some(&article("later")));
    assert_eq!(store.get(6), Some(&article("six")));
}

#[test]
fn extend_with_nothing_changes_nothing() {
    let mut store = ArticleStore::new();
    store.insert(article("A"));
    store.extend(Vec::new());
    assert_eq!(store.list(), vec![1]);
    assert_eq!(store.get(1), Some(&article("A")));
}

#[test]
fn cloned_article_equals_its_original() {
    let written = article("copy me");
    let copy = written.clone();
    assert_eq!(copy, written);
    assert_eq!(copy.content, vec!["copy me one", "copy me two"]);
}
