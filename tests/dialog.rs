use std::collections::HashMap;

use pax_romana::dialogbox::{Dialog, DialogBox, DialogError, DialogTree};

fn tree() -> DialogTree {
    let mut dialogs = HashMap::new();
    dialogs.insert(
        0,
        Dialog::new(
            "Salve".to_string(),
            vec![(2, "A".to_string()), (5, "B".to_string()), (9, "C".to_string())],
        ),
    );
    dialogs.insert(2, Dialog::new("Two".to_string(), vec![(0, "Back".to_string())]));
    dialogs.insert(5, Dialog::new("Five".to_string(), vec![]));
    DialogTree::new(dialogs).unwrap()
}

#[test]
fn tree_needs_a_root() {
    let mut dialogs = HashMap::new();
    dialogs.insert(1, Dialog::new("x".to_string(), vec![]));
    assert_eq!(DialogTree::new(dialogs).unwrap_err(), DialogError::MissingRoot);
}

#[test]
fn opens_at_the_root() {
    let mut b = DialogBox::new();
    assert!(!b.is_visible());
    b.populate_display(Some(tree()));
    assert!(b.is_visible());
    assert_eq!(b.dialog().unwrap().text, "Salve");
    assert_eq!(b.selected_response(), Some(0));
    b.populate_display(None);
    assert!(!b.is_visible());
}

#[test]
fn choosing_the_second_response() {
    let mut dialogs = HashMap::new();
    dialogs.insert(0, Dialog::new("Root".to_string(), vec![(2, "A".to_string()), (5, "B".to_string())]));
    dialogs.insert(2, Dialog::new("Two".to_string(), vec![]));
    dialogs.insert(5, Dialog::new("Five".to_string(), vec![(0, "Back".to_string())]));
    let mut b = DialogBox::new();
    b.populate_display(Some(DialogTree::new(dialogs).unwrap()));
    b.next_response();
    assert_eq!(b.selected_response(), Some(1));
    b.choose_reponse();
    assert_eq!(b.dialog().unwrap().text, "Five");
    assert_eq!(b.selected_response(), Some(0));
}

#[test]
fn next_response_wraps_after_count_moves() {
    let mut b = DialogBox::new();
    b.populate_display(Some(tree()));
    b.next_response();
    assert_eq!(b.selected_response(), Some(1));
    for _ in 0..3 {
        b.next_response();
    }
    assert_eq!(b.selected_response(), Some(1));
}

#[test]
fn prev_response_wraps_to_the_last() {
    let mut b = DialogBox::new();
    b.populate_display(Some(tree()));
    b.prev_response();
    assert_eq!(b.selected_response(), Some(2));
    b.prev_response();
    assert_eq!(b.selected_response(), Some(1));
}

#[test]
fn dangling_response_does_nothing() {
    let mut b = DialogBox::new();
    b.populate_display(Some(tree()));
    b.prev_response();
    b.choose_reponse();
    assert_eq!(b.dialog().unwrap().text, "Salve");
    assert_eq!(b.selected_response(), Some(2));
}

#[test]
fn node_without_responses_keeps_selection_zero() {
    let mut b = DialogBox::new();
    b.populate_display(Some(tree()));
    b.next_response();
    b.choose_reponse();
    assert_eq!(b.dialog().unwrap().text, "Five");
    b.next_response();
    assert_eq!(b.selected_response(), Some(0));
    b.prev_response();
    assert_eq!(b.selected_response(), Some(0));
    b.choose_reponse();
    assert_eq!(b.dialog().unwrap().text, "Five");
}

#[test]
fn closed_box_ignores_navigation() {
    let mut b = DialogBox::new();
    b.next_response();
    b.prev_response();
    b.choose_reponse();
    assert!(!b.is_visible());
    b.populate_display(Some(tree()));
    b.clear();
    assert!(b.dialog().is_none());
}
