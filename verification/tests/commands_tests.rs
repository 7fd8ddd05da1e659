use ecobot::commands::{AdventCommand, BroadcastCommand, StopCommand, SubscriptionCommand};
use ecobot::content::Contents;
use ecobot::escape::escape_markdown_v2;

fn store_with(name: &str, data: &[u8]) -> Contents {
    let mut store = Contents::new();
    store.add(name.to_string(), data.to_vec());
    store
}

#[test]
fn test_escape_markdown_v2() {
    let input = "Hello. World-Test {foo} bar!".to_string();
    let expected = "Hello\\. World\\-Test \\{foo\\} bar\\!";
    assert_eq!(escape_markdown_v2(input), expected);
}

#[test]
fn escape_leaves_plain_text_alone() {
    assert_eq!(escape_markdown_v2("Привет, бот".to_string()), "Привет, бот");
    assert_eq!(escape_markdown_v2(String::new()), "");
}

#[test]
fn test_load_content() {
    let store = store_with("advent.md", "Advent time".as_bytes());
    let result = AdventCommand::load_content(&store);
    assert!(result.is_ok(), "advent.md should be loadable");
}

#[test]
fn load_content_escapes_the_document() {
    let store = store_with("advent.md", "Day 1. Go!".as_bytes());
    assert_eq!(AdventCommand::load_content(&store), Ok("Day 1\\. Go\\!".to_string()));
}

#[test]
fn load_content_reports_a_missing_document() {
    let store = Contents::new();
    assert_eq!(
        AdventCommand::load_content(&store),
        Err("Файл advent.md не найден".to_string())
    );
}

#[test]
fn load_content_reports_a_corrupt_document() {
    let store = store_with("advent.md", &[0xff, 0x00, 0x90]);
    assert_eq!(
        AdventCommand::load_content(&store),
        Err("Ошибка при загрузке файла advent.md".to_string())
    );
}

#[test]
fn subscribe_adds_a_topic_once() {
    let mut subs: Vec<String> = Vec::new();
    assert!(SubscriptionCommand::subscribe(&mut subs, "advent"));
    assert!(!SubscriptionCommand::subscribe(&mut subs, "advent"));
    assert_eq!(subs, vec!["advent".to_string()]);
    assert!(SubscriptionCommand::is_subscribed(&subs, "advent"));
    assert!(!SubscriptionCommand::is_subscribed(&subs, "news"));
}

#[test]
fn unsubscribe_removes_only_the_topic() {
    let mut subs = vec!["advent".to_string(), "news".to_string()];
    assert!(SubscriptionCommand::unsubscribe(&mut subs, "advent"));
    assert_eq!(subs, vec!["news".to_string()]);
    assert!(!SubscriptionCommand::unsubscribe(&mut subs, "advent"));
    assert_eq!(subs, vec!["news".to_string()]);
}

#[test]
fn stop_clears_everything_and_confirms_from_the_store() {
    let store = store_with("unsubscribe_advent.md", "Bye. Come back!".as_bytes());
    let mut subs = vec!["advent".to_string()];
    let msg = StopCommand::handle(&mut subs, &store);
    assert_eq!(msg, "Bye\\. Come back\\!");
    assert!(subs.is_empty());
}

#[test]
fn stop_with_no_subscriptions_says_so() {
    let store = store_with("unsubscribe_advent.md", "Bye".as_bytes());
    let mut subs: Vec<String> = Vec::new();
    let msg = StopCommand::handle(&mut subs, &store);
    assert_eq!(msg, "Вы не подписаны ни на одну рассылку.");
    assert!(subs.is_empty());
}

#[test]
fn stop_reports_a_missing_confirmation_document() {
    let store = Contents::new();
    let mut subs = vec!["advent".to_string()];
    let msg = StopCommand::handle(&mut subs, &store);
    assert_eq!(msg, "Файл unsubscribe_advent.md не найден");
    assert!(subs.is_empty());
}

#[test]
fn recipients_skips_blacklisted_users_in_order() {
    let users = vec![1i64, 2, 3, 4];
    let blacklist = vec![2i64, 9];
    assert_eq!(BroadcastCommand::recipients(&users, &blacklist), vec![1i64, 3, 4]);
    assert_eq!(BroadcastCommand::recipients(&users, &Vec::new()), users);
}

#[test]
fn tally_counts_every_outcome() {
    let outcomes = vec![true, false, true, true, false];
    assert_eq!(BroadcastCommand::tally(&outcomes), (3, 2));
    assert_eq!(BroadcastCommand::tally(&Vec::new()), (0, 0));
}
