use wowl::config::{data_location, DataLocation, Settings};

fn with_terms(text: &str) -> Settings {
    let mut s = Settings::default();
    s.search_terms = text.to_string();
    s
}

#[test]
fn default_settings() {
    let s = Settings::default();
    assert_eq!(s.provider, "picsum");
    assert_eq!(s.search_terms, "");
    assert_eq!(s.history_size, 20);
    assert_eq!(s.history_mode, "loaded");
    assert_eq!(s.theme, "system");
    assert_eq!(s.language, "en");
    assert_eq!(s.unsplash_key, "");
    assert_eq!(s.pixabay_key, "");
    assert_eq!(s.wallhaven_key, "");
    assert_eq!(s.last_save_dir, "");
}

#[test]
fn terms_split_on_comma_and_semicolon() {
    assert_eq!(with_terms("forest, mountain;lake").terms(), vec!["forest", "mountain", "lake"]);
}

#[test]
fn terms_drop_empty_pieces() {
    assert_eq!(with_terms("a,,b").terms(), vec!["a", "b"]);
    assert!(with_terms(" , ;  ").terms().is_empty());
    assert!(with_terms("").terms().is_empty());
}

#[test]
fn terms_are_trimmed_but_keep_inner_spaces() {
    assert_eq!(with_terms("  sea  ").terms(), vec!["sea"]);
    assert_eq!(with_terms(" night sky ;\tstars\n").terms(), vec!["night sky", "stars"]);
}

#[test]
fn terms_law_on_concrete_text() {
    for t in with_terms(" a ; ,b c,;\u{a0}d\u{a0}").terms() {
        assert!(!t.is_empty());
        assert_eq!(t.trim(), t);
        assert!(!t.contains(',') && !t.contains(';'));
    }
}

#[test]
fn data_location_prefers_portable_mode() {
    assert_eq!(data_location(true, true, true), DataLocation::BesideExecutable);
    assert_eq!(data_location(true, true, false), DataLocation::BesideExecutable);
    assert_eq!(data_location(true, false, true), DataLocation::ConfigDir);
    assert_eq!(data_location(false, true, true), DataLocation::ConfigDir);
    assert_eq!(data_location(true, false, false), DataLocation::WorkingDir);
    assert_eq!(data_location(false, false, false), DataLocation::WorkingDir);
}

#[test]
fn terms_of_joined_texts_are_joined_terms() {
    let a = " night sky ,";
    let b = "stars;; sea ";
    for sep in [",", ";"] {
        let mut joined = with_terms(a).terms();
        joined.extend(with_terms(b).terms());
        assert_eq!(with_terms(&format!("{a}{sep}{b}")).terms(), joined);
        assert_eq!(joined, vec!["night sky", "stars", "sea"]);
    }
}
