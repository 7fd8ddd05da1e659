use ecobot::layout::{layout, Button, ButtonAction, PackingPolicy};
use ecobot::model::{Route, RouteKind};

fn leaf(key: &str, label: &str) -> Route {
    Route {
        key: key.to_string(),
        path: key.to_string(),
        label: label.to_string(),
        kind: RouteKind::Leaf(None),
    }
}

fn callback_of(button: &Button) -> &str {
    match &button.action {
        ButtonAction::Callback(key) => key.as_str(),
        ButtonAction::OpenUrl(_) => panic!("expected a callback button"),
    }
}

fn labels(grid: &[Vec<Button>]) -> Vec<Vec<String>> {
    grid.iter().map(|row| row.iter().map(|b| b.label.clone()).collect()).collect()
}

#[test]
fn fixed_chunk_two_of_five_gives_rows_two_two_one() {
    let children = vec![
        leaf("a", "A"),
        leaf("b", "B"),
        leaf("c", "C"),
        leaf("d", "D"),
        leaf("e", "E"),
    ];
    let grid = layout(&children, PackingPolicy::FixedChunk(2));
    let sizes: Vec<usize> = grid.iter().map(|row| row.len()).collect();
    assert_eq!(sizes, vec![2, 2, 1]);
    assert_eq!(
        labels(&grid),
        vec![
            vec!["A".to_string(), "B".to_string()],
            vec!["C".to_string(), "D".to_string()],
            vec!["E".to_string()],
        ]
    );
}

#[test]
fn fixed_chunk_three_keeps_order() {
    let children = vec![leaf("a", "A"), leaf("b", "B"), leaf("c", "C"), leaf("d", "D")];
    let grid = layout(&children, PackingPolicy::FixedChunk(3));
    let sizes: Vec<usize> = grid.iter().map(|row| row.len()).collect();
    assert_eq!(sizes, vec![3, 1]);
    assert_eq!(callback_of(&grid[0][0]), "a");
    assert_eq!(callback_of(&grid[1][0]), "d");
}

#[test]
fn length_aware_gives_wide_labels_their_own_row() {
    let children = vec![
        leaf("paper", "Paper"),
        leaf("glass", "Glass"),
        leaf("long", "ALongLabelOverTwentyCharacters"),
        leaf("metal", "Metal"),
    ];
    let grid = layout(&children, PackingPolicy::LengthAware);
    assert_eq!(
        labels(&grid),
        vec![
            vec!["Paper".to_string(), "Glass".to_string()],
            vec!["ALongLabelOverTwentyCharacters".to_string()],
            vec!["Metal".to_string()],
        ]
    );
}

#[test]
fn length_aware_flushes_odd_trailing_button() {
    let children = vec![leaf("a", "A"), leaf("b", "B"), leaf("c", "C")];
    let grid = layout(&children, PackingPolicy::LengthAware);
    let sizes: Vec<usize> = grid.iter().map(|row| row.len()).collect();
    assert_eq!(sizes, vec![2, 1]);
}

#[test]
fn length_aware_boundary_label_of_twenty_chars_is_not_wide() {
    let exactly_twenty = "ABCDEFGHIJKLMNOPQRST";
    assert_eq!(exactly_twenty.chars().count(), 20);
    let children = vec![leaf("a", exactly_twenty), leaf("b", "B")];
    let grid = layout(&children, PackingPolicy::LengthAware);
    let sizes: Vec<usize> = grid.iter().map(|row| row.len()).collect();
    assert_eq!(sizes, vec![2]);
}

#[test]
fn layout_of_no_children_is_empty() {
    let children: Vec<Route> = Vec::new();
    assert_eq!(layout(&children, PackingPolicy::FixedChunk(2)).len(), 0);
    assert_eq!(layout(&children, PackingPolicy::LengthAware).len(), 0);
}

#[test]
fn button_payload_is_exactly_the_child_key() {
    let children = vec![leaf("paper", "Paper"), leaf("give-away", "Give away")];
    for policy in [PackingPolicy::FixedChunk(2), PackingPolicy::LengthAware] {
        let grid = layout(&children, policy);
        let flat: Vec<&Button> = grid.iter().flatten().collect();
        assert_eq!(flat.len(), 2);
        assert_eq!(callback_of(flat[0]), "paper");
        assert_eq!(callback_of(flat[1]), "give-away");
    }
}
