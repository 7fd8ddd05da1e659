use ecobot::catalog::{load, Catalog};
use ecobot::content::Contents;
use ecobot::layout::{Button, ButtonAction, PackingPolicy};
use ecobot::model::{ExternalLink, RouteEntry};
use ecobot::render::{build_details, render, MenuError, RenderContext, RenderError, RenderedMenu};
use ecobot::resolve::resolve;

fn entry(
    key: &str,
    label: &str,
    children: Option<Vec<&str>>,
    external: Option<(&str, &str)>,
) -> RouteEntry {
    RouteEntry {
        key: key.to_string(),
        path: key.to_string(),
        label: label.to_string(),
        children: children.map(|cs| cs.into_iter().map(|c| c.to_string()).collect()),
        external: external.map(|(label, url)| ExternalLink {
            label: label.to_string(),
            url: url.to_string(),
        }),
    }
}

fn sample_catalog() -> Catalog {
    load(vec![
        entry("start", "Start", Some(vec!["paper", "faq", "site"]), None),
        entry("paper", "Paper", None, None),
        entry("faq", "FAQ", None, None),
        entry("site", "Site", None, Some(("Visit site", "https://example.org"))),
    ])
    .expect("valid entries should load")
}

fn sample_store() -> Contents {
    let mut store = Contents::new();
    store.add("start.md".to_string(), b"Welcome".to_vec());
    store.add("paper.md".to_string(), b"About paper".to_vec());
    store.add("site.md".to_string(), b"Our site".to_vec());
    store
}

fn ctx(allow_external: bool) -> RenderContext {
    RenderContext { allow_external, requesting_user: None }
}

fn flat_buttons(menu: &RenderedMenu) -> Vec<&Button> {
    menu.buttons.iter().flatten().collect()
}

#[test]
fn render_branch_lists_children_in_order() {
    let catalog = sample_catalog();
    let store = sample_store();
    let route = catalog.get("start").expect("start is in the catalog");
    let menu = render(&catalog, route, &ctx(false), &store, PackingPolicy::LengthAware)
        .expect("start.md is stored");
    assert_eq!(menu.text, "Welcome");
    let flat = flat_buttons(&menu);
    assert_eq!(flat.len(), 3);
    assert_eq!(flat[0].label, "Paper");
    assert_eq!(flat[1].label, "FAQ");
    assert_eq!(flat[2].label, "Site");
}

#[test]
fn render_external_leaf_obeys_the_context_flag() {
    let catalog = sample_catalog();
    let store = sample_store();
    let route = catalog.get("site").expect("site is in the catalog");

    let shown = render(&catalog, route, &ctx(true), &store, PackingPolicy::LengthAware)
        .expect("site.md is stored");
    let flat = flat_buttons(&shown);
    assert_eq!(flat.len(), 1);
    assert_eq!(flat[0].label, "Visit site");
    match &flat[0].action {
        ButtonAction::OpenUrl(url) => assert_eq!(url, "https://example.org"),
        ButtonAction::Callback(_) => panic!("expected an open-URL button"),
    }

    let hidden = render(&catalog, route, &ctx(false), &store, PackingPolicy::LengthAware)
        .expect("site.md is stored");
    let flat = flat_buttons(&hidden);
    assert_eq!(flat.len(), 1);
    assert_eq!(flat[0].label, "На Главную");
    match &flat[0].action {
        ButtonAction::Callback(key) => assert_eq!(key, "start"),
        ButtonAction::OpenUrl(_) => panic!("expected a callback button"),
    }
}

#[test]
fn render_leaf_without_external_link_points_home() {
    let catalog = sample_catalog();
    let store = sample_store();
    let route = catalog.get("paper").expect("paper is in the catalog");
    let menu = render(&catalog, route, &ctx(true), &store, PackingPolicy::LengthAware)
        .expect("paper.md is stored");
    let flat = flat_buttons(&menu);
    assert_eq!(flat.len(), 1);
    assert_eq!(flat[0].label, "На Главную");
}

#[test]
fn render_reports_missing_content_and_other_routes_stay_servable() {
    let catalog = sample_catalog();
    let store = sample_store();
    let route = catalog.get("faq").expect("faq is in the catalog");
    let missing = render(&catalog, route, &ctx(false), &store, PackingPolicy::LengthAware);
    assert!(matches!(missing, Err(RenderError::ContentMissing)));

    let paper = catalog.get("paper").expect("paper is in the catalog");
    let served = render(&catalog, paper, &ctx(false), &store, PackingPolicy::LengthAware);
    assert!(served.is_ok());
}

#[test]
fn render_reports_corrupt_content() {
    let catalog = sample_catalog();
    let mut store = sample_store();
    store.add("faq.md".to_string(), vec![0xff, 0xfe, 0x00]);
    let route = catalog.get("faq").expect("faq is in the catalog");
    let corrupt = render(&catalog, route, &ctx(false), &store, PackingPolicy::LengthAware);
    assert!(matches!(corrupt, Err(RenderError::ContentCorrupt)));
}

#[test]
fn render_depends_only_on_its_inputs() {
    let catalog = sample_catalog();
    let store = sample_store();
    let route = catalog.get("start").expect("start is in the catalog");
    let first = render(&catalog, route, &ctx(false), &store, PackingPolicy::LengthAware)
        .expect("start.md is stored");
    let second = render(&catalog, route, &ctx(false), &store, PackingPolicy::LengthAware)
        .expect("start.md is stored");
    assert_eq!(first.text, second.text);
    let first_flat = flat_buttons(&first);
    let second_flat = flat_buttons(&second);
    assert_eq!(first_flat.len(), second_flat.len());
    for (a, b) in first_flat.iter().zip(second_flat.iter()) {
        assert_eq!(a.label, b.label);
    }
}

#[test]
fn emitted_payloads_resolve_back_to_the_children() {
    let catalog = sample_catalog();
    let store = sample_store();
    let route = catalog.get("start").expect("start is in the catalog");
    for policy in [PackingPolicy::FixedChunk(2), PackingPolicy::LengthAware] {
        let menu =
            render(&catalog, route, &ctx(false), &store, policy).expect("start.md is stored");
        let expected = ["paper", "faq", "site"];
        let flat = flat_buttons(&menu);
        assert_eq!(flat.len(), expected.len());
        for (button, child) in flat.iter().zip(expected.iter()) {
            match &button.action {
                ButtonAction::Callback(payload) => {
                    assert_eq!(resolve(&catalog, payload), Ok(child.to_string()));
                }
                ButtonAction::OpenUrl(_) => panic!("expected a callback button"),
            }
        }
    }
}

#[test]
fn empty_children_list_renders_as_a_leaf() {
    let catalog = load(vec![entry("start", "Start", Some(vec![]), None)])
        .expect("valid entries should load");
    let mut store = Contents::new();
    store.add("start.md".to_string(), b"Welcome".to_vec());
    let route = catalog.get("start").expect("start is in the catalog");
    let menu = render(&catalog, route, &ctx(false), &store, PackingPolicy::LengthAware)
        .expect("start.md is stored");
    let flat = flat_buttons(&menu);
    assert_eq!(flat.len(), 1);
    assert_eq!(flat[0].label, "На Главную");
}

#[test]
fn children_take_precedence_over_an_external_link() {
    let catalog = load(vec![
        entry("start", "Start", Some(vec!["paper"]), Some(("Visit", "https://example.org"))),
        entry("paper", "Paper", None, None),
    ])
    .expect("valid entries should load");
    let mut store = Contents::new();
    store.add("start.md".to_string(), b"Welcome".to_vec());
    let route = catalog.get("start").expect("start is in the catalog");
    let menu = render(&catalog, route, &ctx(true), &store, PackingPolicy::LengthAware)
        .expect("start.md is stored");
    let flat = flat_buttons(&menu);
    assert_eq!(flat.len(), 1);
    assert_eq!(flat[0].label, "Paper");
    assert!(matches!(flat[0].action, ButtonAction::Callback(_)));
}

#[test]
fn test_build_details_start() {
    let catalog = sample_catalog();
    let store = sample_store();
    let result = build_details(&catalog, &store, "start", false);
    assert!(result.is_ok(), "start.md should be loadable");
}

#[test]
fn build_details_escapes_the_text_and_resolves_slashed_input() {
    let catalog = sample_catalog();
    let mut store = sample_store();
    store.add("faq.md".to_string(), b"Q. And A!".to_vec());
    let menu = build_details(&catalog, &store, "/faq", false).expect("faq.md is stored");
    assert_eq!(menu.text, "Q\\. And A\\!");
}

#[test]
fn build_details_reports_unknown_routes() {
    let catalog = sample_catalog();
    let store = sample_store();
    let unknown = build_details(&catalog, &store, "/nope", false);
    assert!(matches!(unknown, Err(MenuError::UnknownRoute)));
}

#[test]
fn build_details_reports_content_defects() {
    let catalog = sample_catalog();
    let mut store = sample_store();
    let missing = build_details(&catalog, &store, "faq", false);
    assert!(matches!(missing, Err(MenuError::ContentMissing)));

    store.add("faq.md".to_string(), vec![0xc3, 0x28]);
    let corrupt = build_details(&catalog, &store, "faq", false);
    assert!(matches!(corrupt, Err(MenuError::ContentCorrupt)));
}
