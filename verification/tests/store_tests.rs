use bauhaus_wiki::store::{seeded, WikiStore};

#[test]
fn absent_key_reports_absent() {
    let store = WikiStore::new();
    assert!(store.get_latest("never_saved").is_none());
    assert!(store.get_history("never_saved").is_none());
}

#[test]
fn absent_key_stays_absent_under_other_saves() {
    let mut store = WikiStore::new();
    store.save("somewhere", "text", 1);
    assert!(store.get_latest("elsewhere").is_none());
    assert!(store.get_history("elsewhere").is_none());
}

#[test]
fn two_saves_append_in_order() {
    let mut store = WikiStore::new();
    store.save("k", "c1", 10);
    store.save("k", "c2", 20);
    let history = store.get_history("k").unwrap();
    assert_eq!(history.len(), 2);
    assert_eq!(history[0].content, "c1");
    assert_eq!(history[1].content, "c2");
    assert_eq!(store.get_latest("k").unwrap().content, "c2");
}

#[test]
fn history_never_shrinks_or_reorders() {
    let mut store = WikiStore::new();
    store.save("k", "a", 1);
    store.save("other", "x", 2);
    store.save("k", "b", 3);
    let history = store.get_history("k").unwrap();
    assert_eq!(history.len(), 2);
    assert_eq!(history[0].content, "a");
    assert_eq!(history[1].content, "b");
    assert_eq!(store.get_history("other").unwrap().len(), 1);
}

#[test]
fn title_derived_from_key_alone() {
    let mut store = WikiStore::new();
    store.save("my_page", "first content", 1);
    store.save("my_page", "second content", 2);
    let history = store.get_history("my_page").unwrap();
    assert_eq!(history[0].title, "My Page");
    assert_eq!(history[1].title, "My Page");
    assert_eq!(history[0].content, "first content");
    assert_eq!(history[1].content, "second content");
    assert_eq!(history[0].timestamp, 1);
    assert_eq!(history[1].timestamp, 2);
}

#[test]
fn title_capitalizes_every_word() {
    let mut store = WikiStore::new();
    store.save("the_bauhaus_school", "x", 1);
    assert_eq!(store.get_latest("the_bauhaus_school").unwrap().title, "The Bauhaus School");
}

#[test]
fn many_saves_on_fresh_key_all_kept() {
    let mut store = WikiStore::new();
    let n = 20;
    for i in 0..n {
        store.save("fresh", &format!("content {}", i), i as u64);
        assert_eq!(store.get_history("fresh").unwrap().len(), i + 1);
    }
    let history = store.get_history("fresh").unwrap();
    assert_eq!(history.len(), n);
    for i in 0..n {
        assert_eq!(history[i].content, format!("content {}", i));
    }
}

#[test]
fn search_seed_articles_for_bauhaus() {
    let store = seeded(100);
    let results = store.search("bauhaus");
    assert_eq!(results.len(), 2);
    assert_eq!(results[0].0, "main");
    assert_eq!(results[0].1, "Main Page");
    assert_eq!(results[1].0, "bauhaus");
    assert_eq!(results[1].1, "Bauhaus");
}

#[test]
fn search_is_deterministic_on_unchanged_state() {
    let store = seeded(100);
    let first = store.search("bauhaus");
    let second = store.search("bauhaus");
    assert_eq!(first, second);
}

#[test]
fn search_is_case_insensitive() {
    let store = seeded(100);
    let results = store.search("BAUHAUS");
    assert_eq!(results.len(), 2);
    let results = store.search("geometric ABSTRACTION");
    assert_eq!(results.len(), 1);
    assert_eq!(results[0].0, "bauhaus");
}

#[test]
fn search_misses_report_nothing() {
    let store = seeded(100);
    let results = store.search("no such words anywhere");
    assert!(results.is_empty());
}

#[test]
fn search_empty_query_matches_everything() {
    let store = seeded(100);
    let results = store.search("");
    assert_eq!(results.len(), 2);
}

#[test]
fn search_reads_current_version_only() {
    let mut store = seeded(100);
    store.save("bauhaus", "now about something else entirely", 200);
    let results = store.search("geometric");
    assert!(results.iter().all(|r| r.0 != "bauhaus"));
}

#[test]
fn seed_titles_and_contents() {
    let store = seeded(7);
    let main = store.get_latest("main").unwrap();
    assert_eq!(main.title, "Main Page");
    assert!(main.content.contains("[[Bauhaus]]"));
    assert_eq!(main.timestamp, 7);
    let bauhaus = store.get_latest("bauhaus").unwrap();
    assert_eq!(bauhaus.title, "Bauhaus");
    assert!(bauhaus.content.contains("Form follows function"));
}
