use ecobot::catalog::{load, ConfigError};
use ecobot::model::{ExternalLink, RouteEntry};
use ecobot::resolve::{normalize, resolve, ResolveError};

fn entry(
    key: &str,
    label: &str,
    children: Option<Vec<&str>>,
    external: Option<(&str, &str)>,
) -> RouteEntry {
    RouteEntry {
        key: key.to_string(),
        path: key.to_string(),
        label: label.to_string(),
        children: children.map(|cs| cs.into_iter().map(|c| c.to_string()).collect()),
        external: external.map(|(label, url)| ExternalLink {
            label: label.to_string(),
            url: url.to_string(),
        }),
    }
}

fn sample_entries() -> Vec<RouteEntry> {
    vec![
        entry("start", "Start", Some(vec!["paper", "glass", "faq"]), None),
        entry("paper", "Paper", None, None),
        entry("glass", "Glass", None, None),
        entry("faq", "FAQ", None, Some(("Visit site", "https://example.org"))),
    ]
}

#[test]
fn load_accepts_valid_entries() {
    let catalog = load(sample_entries()).expect("valid entries should load");
    assert_eq!(catalog.len(), 4);
    assert!(catalog.get("start").is_some());
    assert!(catalog.get("paper").is_some());
    assert!(catalog.get("nope").is_none());
}

#[test]
fn load_rejects_dangling_reference() {
    let entries = vec![
        entry("start", "Start", Some(vec!["paper", "missing"]), None),
        entry("paper", "Paper", None, None),
    ];
    assert!(matches!(load(entries), Err(ConfigError::DanglingReference)));
}

#[test]
fn load_rejects_duplicate_key() {
    let entries = vec![
        entry("paper", "Paper", None, None),
        entry("paper", "Paper again", None, None),
    ];
    assert!(matches!(load(entries), Err(ConfigError::Malformed)));
}

#[test]
fn load_rejects_non_canonical_key() {
    let entries = vec![entry("a/b", "Slashed", None, None)];
    assert!(matches!(load(entries), Err(ConfigError::Malformed)));
}

#[test]
fn load_accepts_empty_document() {
    let catalog = load(Vec::new()).expect("an empty document is valid");
    assert_eq!(catalog.len(), 0);
    assert!(catalog.get("start").is_none());
}

#[test]
fn normalize_strips_one_leading_slash_and_hyphenates() {
    assert_eq!(normalize("/start"), "start");
    assert_eq!(normalize("start"), "start");
    assert_eq!(normalize("/subscribe/advent"), "subscribe-advent");
    assert_eq!(normalize("//x"), "-x");
    assert_eq!(normalize(""), "");
}

#[test]
fn normalize_is_idempotent() {
    for raw in ["/start", "start", "/a/b/c", "//x", "", "бот"] {
        let once = normalize(raw);
        let twice = normalize(&once);
        assert_eq!(once, twice);
    }
}

#[test]
fn resolve_finds_canonical_and_slashed_forms() {
    let catalog = load(sample_entries()).expect("valid entries should load");
    assert_eq!(resolve(&catalog, "start"), Ok("start".to_string()));
    assert_eq!(resolve(&catalog, "/start"), Ok("start".to_string()));
    assert_eq!(resolve(&catalog, "/unknown"), Err(ResolveError::NotFound));
    assert_eq!(resolve(&catalog, ""), Err(ResolveError::NotFound));
}

#[test]
fn resolve_agrees_with_resolving_the_normalized_form() {
    let catalog = load(sample_entries()).expect("valid entries should load");
    for raw in ["/start", "start", "/faq", "nope", "/a/b"] {
        let direct = resolve(&catalog, raw);
        let renormalized = resolve(&catalog, &normalize(raw));
        assert_eq!(direct, renormalized);
    }
}
