use ecobot::commands::{classify_callback, CallbackAction};
use ecobot::location::{BinSite, LocationCommand};

fn site(distance_m: u64, address: &str, glass: bool) -> BinSite {
    BinSite { distance_m, address: address.to_string(), glass }
}

#[test]
fn nearest_reports_the_two_closest_within_radius() {
    let sites = vec![
        site(750, "Far inside", false),
        site(120, "Closest", true),
        site(1500, "Out of range", true),
        site(430, "Second", false),
    ];
    let reported = LocationCommand::nearest(&sites);
    assert_eq!(reported.len(), 2);
    assert_eq!(reported[0].address, "Closest");
    assert_eq!(reported[0].distance_m, 120);
    assert!(reported[0].glass);
    assert_eq!(reported[1].address, "Second");
    assert_eq!(reported[1].distance_m, 430);
}

#[test]
fn nearest_reports_fewer_sites_when_few_are_in_range() {
    let sites = vec![site(2000, "Away", false), site(999, "Border", false)];
    let reported = LocationCommand::nearest(&sites);
    assert_eq!(reported.len(), 1);
    assert_eq!(reported[0].address, "Border");

    let none = LocationCommand::nearest(&vec![site(1001, "Just out", false)]);
    assert!(none.is_empty());

    let boundary = LocationCommand::nearest(&vec![site(1000, "Exactly on", false)]);
    assert_eq!(boundary.len(), 1);
}

#[test]
fn nearest_prefers_the_earliest_of_equally_distant_sites() {
    let sites = vec![site(300, "First", false), site(300, "Twin", true), site(300, "Third", false)];
    let reported = LocationCommand::nearest(&sites);
    assert_eq!(reported.len(), 2);
    assert_eq!(reported[0].address, "First");
    assert_eq!(reported[1].address, "Twin");
}

#[test]
fn callback_payloads_classify_by_prefix() {
    match classify_callback("/subscribe_advent") {
        CallbackAction::Subscribe(topic) => assert_eq!(topic, "advent"),
        _ => panic!("expected a subscribe action"),
    }
    match classify_callback("/unsubscribe_advent") {
        CallbackAction::Unsubscribe(topic) => assert_eq!(topic, "advent"),
        _ => panic!("expected an unsubscribe action"),
    }
    match classify_callback("/start") {
        CallbackAction::Navigate(text) => assert_eq!(text, "/start"),
        _ => panic!("expected a navigation action"),
    }
    match classify_callback("/subscribe_") {
        CallbackAction::Subscribe(topic) => assert_eq!(topic, ""),
        _ => panic!("expected a subscribe action"),
    }
}
