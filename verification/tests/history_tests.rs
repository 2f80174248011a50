use wowl::history::{
    add, add_at, clear, delete, ext_for, file_name, file_path, find_entry, sanitize, AddOutcome,
    HistoryEntry,
};
use wowl::providers::Photo;

fn photo(id: &str) -> Photo {
    Photo {
        id: id.to_string(),
        provider: "bing".to_string(),
        width: 10,
        height: 20,
        photographer: "Ann".to_string(),
        photographer_url: None,
        source_url: Some("https://www.bing.com".to_string()),
        image_url: format!("https://img/{id}"),
        download_trigger: None,
    }
}

fn entry(id: &str) -> HistoryEntry {
    HistoryEntry {
        id: id.to_string(),
        provider: "picsum".to_string(),
        photographer: "P".to_string(),
        photographer_url: None,
        source_url: None,
        image_url: format!("https://img/{id}"),
        file: format!("{id}.jpg"),
        saved_at: "2024-01-01T00:00:00+00:00".to_string(),
    }
}

fn ids(entries: &[HistoryEntry]) -> Vec<&str> {
    entries.iter().map(|e| e.id.as_str()).collect()
}

#[test]
fn sanitize_keeps_safe_characters_only() {
    assert_eq!(sanitize("picsum-10"), "picsum-10");
    assert_eq!(sanitize("bing-Owl/..?"), "bing-Owl____");
    assert_eq!(sanitize("a_b ä"), "a_b__");
    assert_eq!(sanitize(""), "");
    assert_eq!(sanitize(&sanitize("x:y/z")), sanitize("x:y/z"));
}

#[test]
fn extension_for_mime_types() {
    assert_eq!(ext_for("image/png"), "png");
    assert_eq!(ext_for("image/webp"), "webp");
    assert_eq!(ext_for("image/gif"), "gif");
    assert_eq!(ext_for("image/avif"), "avif");
    assert_eq!(ext_for("image/jpeg"), "jpg");
    assert_eq!(ext_for("text/html"), "jpg");
    assert_eq!(file_name("unsplash-ab:c", "image/png"), "unsplash-ab_c.png");
}

#[test]
fn add_to_empty_history() {
    match add_at(Vec::new(), &photo("bing-Owl"), "image/webp", 20, "T0".to_string()) {
        AddOutcome::Added { entries, file, stale } => {
            assert_eq!(file, "bing-Owl.webp");
            assert!(stale.is_empty());
            assert_eq!(entries.len(), 1);
            let e = &entries[0];
            assert_eq!(e.id, "bing-Owl");
            assert_eq!(e.provider, "bing");
            assert_eq!(e.photographer, "Ann");
            assert_eq!(e.photographer_url, None);
            assert_eq!(e.source_url.as_deref(), Some("https://www.bing.com"));
            assert_eq!(e.image_url, "https://img/bing-Owl");
            assert_eq!(e.file, "bing-Owl.webp");
            assert_eq!(e.saved_at, "T0");
        }
        AddOutcome::Unchanged => panic!("expected the image to be added"),
    }
}

#[test]
fn add_never_stores_a_duplicate() {
    let entries = vec![entry("a"), entry("b")];
    assert!(matches!(add_at(entries, &photo("b"), "image/png", 20, "T".to_string()), AddOutcome::Unchanged));
}

#[test]
fn add_with_zero_size_is_disabled() {
    assert!(matches!(add_at(Vec::new(), &photo("a"), "image/png", 0, "T".to_string()), AddOutcome::Unchanged));
}

#[test]
fn add_drops_oldest_first() {
    let entries = vec![entry("c"), entry("b"), entry("a")];
    match add_at(entries, &photo("d"), "image/jpeg", 3, "T".to_string()) {
        AddOutcome::Added { entries, file, stale } => {
            assert_eq!(ids(&entries), vec!["d", "c", "b"]);
            assert_eq!(file, "d.jpg");
            assert_eq!(stale, vec!["a.jpg"]);
        }
        AddOutcome::Unchanged => panic!("expected the image to be added"),
    }
    let entries = vec![entry("c"), entry("b"), entry("a")];
    match add_at(entries, &photo("d"), "image/jpeg", 1, "T".to_string()) {
        AddOutcome::Added { entries, stale, .. } => {
            assert_eq!(ids(&entries), vec!["d"]);
            assert_eq!(stale, vec!["c.jpg", "b.jpg", "a.jpg"]);
        }
        AddOutcome::Unchanged => panic!("expected the image to be added"),
    }
}

#[test]
fn add_twice_changes_nothing_the_second_time() {
    let first = match add_at(Vec::new(), &photo("x"), "image/png", 5, "T".to_string()) {
        AddOutcome::Added { entries, .. } => entries,
        AddOutcome::Unchanged => panic!("expected the image to be added"),
    };
    assert!(matches!(add_at(first, &photo("x"), "image/gif", 9, "U".to_string()), AddOutcome::Unchanged));
}

#[test]
fn add_now_stamps_the_entry() {
    match add(vec![entry("a")], &photo("b"), "image/png", 20) {
        AddOutcome::Added { entries, .. } => {
            assert_eq!(ids(&entries), vec!["b", "a"]);
            assert!(entries[0].saved_at.contains('T'));
            assert!(entries[0].saved_at.ends_with("+00:00"));
            assert!(entries[0].saved_at.len() >= 25);
            assert!(chrono::DateTime::parse_from_rfc3339(&entries[0].saved_at).is_ok());
        }
        AddOutcome::Unchanged => panic!("expected the image to be added"),
    }
}

#[test]
fn delete_removes_listed_ids() {
    let entries = vec![entry("a"), entry("b"), entry("c")];
    let (kept, removed) = delete(entries, &vec!["b".to_string(), "zz".to_string()]);
    assert_eq!(ids(&kept), vec!["a", "c"]);
    assert_eq!(removed, vec!["b.jpg"]);
    let (kept, removed) = delete(vec![entry("a")], &Vec::new());
    assert_eq!(ids(&kept), vec!["a"]);
    assert!(removed.is_empty());
}

#[test]
fn add_then_delete_takes_image_out() {
    let entries = match add_at(vec![entry("a")], &photo("n"), "image/png", 4, "T".to_string()) {
        AddOutcome::Added { entries, .. } => entries,
        AddOutcome::Unchanged => panic!("expected the image to be added"),
    };
    let (kept, removed) = delete(entries, &vec!["n".to_string()]);
    assert_eq!(ids(&kept), vec!["a"]);
    assert_eq!(removed, vec!["n.png"]);
}

#[test]
fn clear_lists_every_file() {
    assert_eq!(clear(&vec![entry("a"), entry("b")]), vec!["a.jpg", "b.jpg"]);
    assert!(clear(&Vec::new()).is_empty());
}

#[test]
fn lookup_by_id() {
    let entries = vec![entry("a"), entry("b")];
    assert_eq!(find_entry(&entries, "b"), Some(1));
    assert_eq!(find_entry(&entries, "c"), None);
    assert_eq!(file_path(&entries, "a").as_deref(), Some("a.jpg"));
    assert_eq!(file_path(&entries, "c"), None);
}

fn added(outcome: AddOutcome) -> Vec<HistoryEntry> {
    match outcome {
        AddOutcome::Added { entries, .. } => entries,
        AddOutcome::Unchanged => panic!("expected the image to be added"),
    }
}

#[test]
fn history_stays_newest_first_across_calls() {
    let h = added(add_at(vec![entry("old")], &photo("p1"), "image/jpeg", 20, "T1".to_string()));
    let h = added(add(h, &photo("p2"), "image/jpeg", 20));
    let (h, removed) = delete(h, &vec!["old".to_string()]);
    assert_eq!(removed, vec!["old.jpg"]);
    let h = added(add(h, &photo("p3"), "image/png", 20));
    assert_eq!(ids(&h), vec!["p3", "p2", "p1"]);
}
