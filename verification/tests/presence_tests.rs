use dtn_chat::decode::{DecodedMessage, MESSAGE_END, MESSAGE_START, NAME_END, NAME_START};
use dtn_chat::presence::{contains_name, PresenceTracker, SeenNode, State};

fn names(ids: &[&str]) -> Vec<String> {
    ids.iter().map(|id| id.to_string()).collect()
}

fn message(sender: &str, text: &str) -> DecodedMessage {
    DecodedMessage { sender: sender.to_string(), message: text.to_string() }
}

fn summary(tracker: &PresenceTracker) -> Vec<(String, State, bool)> {
    tracker
        .peers()
        .iter()
        .map(|peer| (peer.name.clone(), peer.state, peer.has_notification))
        .collect()
}

fn entry(name: &str, state: State, has_notification: bool) -> (String, State, bool) {
    (name.to_string(), state, has_notification)
}

#[test]
fn new_tracker_is_empty() {
    let tracker = PresenceTracker::new();
    assert!(tracker.peers().is_empty());
    assert_eq!(tracker.cursor(), 0);
    assert_eq!(tracker.selected_peer(), None);
    assert_eq!(tracker.peer_id_at(0), None);
}

#[test]
fn seen_node_starts_without_notification() {
    let node = SeenNode::new("alice".to_string(), State::Near);
    assert_eq!(node.name, "alice");
    assert_eq!(node.state, State::Near);
    assert!(!node.has_notification);
    let node = SeenNode::new("bob".to_string(), State::Away);
    assert_eq!(node.state, State::Away);
}

#[test]
fn state_labels() {
    assert_eq!(State::Near.to_string(), "Near");
    assert_eq!(State::Away.to_string(), "Away");
}

#[test]
fn snapshot_appends_in_order_of_discovery() {
    let mut tracker = PresenceTracker::new();
    tracker.observe_reachable_peers(&names(&["carol", "alice"]));
    tracker.observe_reachable_peers(&names(&["bob", "alice", "dave"]));
    assert_eq!(
        summary(&tracker),
        vec![
            entry("carol", State::Away, false),
            entry("alice", State::Near, false),
            entry("bob", State::Near, false),
            entry("dave", State::Near, false),
        ]
    );
}

#[test]
fn snapshot_counts_as_a_set() {
    let mut tracker = PresenceTracker::new();
    tracker.observe_reachable_peers(&names(&["alice", "bob", "alice", "bob", "alice"]));
    assert_eq!(
        summary(&tracker),
        vec![entry("alice", State::Near, false), entry("bob", State::Near, false)]
    );
}

#[test]
fn snapshot_twice_is_snapshot_once() {
    let mut tracker = PresenceTracker::new();
    tracker.observe_reachable_peers(&names(&["alice", "bob"]));
    tracker.observe_incoming_message(&message("bob", "hi"));
    let current = names(&["bob", "carol"]);
    tracker.observe_reachable_peers(&current);
    let once = summary(&tracker);
    let cursor = tracker.cursor();
    tracker.observe_reachable_peers(&current);
    assert_eq!(summary(&tracker), once);
    assert_eq!(tracker.cursor(), cursor);
    assert_eq!(
        once,
        vec![
            entry("alice", State::Away, false),
            entry("bob", State::Near, true),
            entry("carol", State::Near, false),
        ]
    );
}

#[test]
fn known_peers_never_get_fewer() {
    let mut tracker = PresenceTracker::new();
    let mut len = 0;
    tracker.observe_reachable_peers(&names(&["alice"]));
    assert!(tracker.peers().len() >= len);
    len = tracker.peers().len();
    tracker.observe_incoming_message(&message("bob", "hi"));
    assert!(tracker.peers().len() >= len);
    len = tracker.peers().len();
    tracker.observe_reachable_peers(&names(&[]));
    assert!(tracker.peers().len() >= len);
    len = tracker.peers().len();
    tracker.observe_incoming_message(&message("alice", "hi"));
    assert!(tracker.peers().len() >= len);
    len = tracker.peers().len();
    tracker.observe_reachable_peers(&names(&["carol"]));
    assert!(tracker.peers().len() >= len);
    assert_eq!(tracker.peers().len(), 3);
}

#[test]
fn places_never_change() {
    let mut tracker = PresenceTracker::new();
    tracker.observe_reachable_peers(&names(&["alice", "bob"]));
    tracker.observe_incoming_message(&message("carol", "hi"));
    tracker.observe_reachable_peers(&names(&["dave", "carol"]));
    tracker.select_peer(&"carol".to_string());
    tracker.next();
    tracker.observe_reachable_peers(&names(&[]));
    tracker.previous();
    tracker.observe_incoming_message(&message("erin", "hi"));
    let ids: Vec<&str> = tracker.peers().iter().map(|peer| peer.name.as_str()).collect();
    assert_eq!(ids, vec!["alice", "bob", "carol", "dave", "erin"]);
    assert_eq!(tracker.peer_id_at(0).map(String::as_str), Some("alice"));
    assert_eq!(tracker.peer_id_at(2).map(String::as_str), Some("carol"));
    assert_eq!(tracker.peer_id_at(4).map(String::as_str), Some("erin"));
    assert_eq!(tracker.peer_id_at(5), None);
    assert_eq!(tracker.position_of(&"dave".to_string()), Some(3));
    assert_eq!(tracker.position_of(&"frank".to_string()), None);
}

#[test]
fn message_from_the_selected_peer_sets_no_notification() {
    let mut tracker = PresenceTracker::new();
    tracker.observe_reachable_peers(&names(&["alice", "bob"]));
    tracker.select_peer(&"bob".to_string());
    let before = summary(&tracker);
    tracker.observe_incoming_message(&message("bob", "hi"));
    assert_eq!(summary(&tracker), before);
    assert_eq!(
        summary(&tracker),
        vec![entry("alice", State::Near, false), entry("bob", State::Near, false)]
    );
    assert_eq!(tracker.selected_peer().map(String::as_str), Some("bob"));
}

#[test]
fn message_from_another_peer_sets_its_notification() {
    let mut tracker = PresenceTracker::new();
    tracker.observe_reachable_peers(&names(&["alice", "bob"]));
    tracker.observe_incoming_message(&message("bob", "hi"));
    tracker.observe_incoming_message(&message("bob", "again"));
    assert_eq!(
        summary(&tracker),
        vec![entry("alice", State::Near, false), entry("bob", State::Near, true)]
    );
}

#[test]
fn selecting_a_peer_clears_its_notification() {
    let mut tracker = PresenceTracker::new();
    tracker.observe_reachable_peers(&names(&["alice", "bob", "carol"]));
    tracker.observe_incoming_message(&message("bob", "hi"));
    tracker.observe_incoming_message(&message("carol", "hi"));
    tracker.select_peer(&"bob".to_string());
    assert_eq!(
        summary(&tracker),
        vec![
            entry("alice", State::Near, false),
            entry("bob", State::Near, false),
            entry("carol", State::Near, true),
        ]
    );
    assert_eq!(tracker.selected_peer().map(String::as_str), Some("bob"));
    assert_eq!(tracker.cursor(), 1);
    tracker.select_peer(&"alice".to_string());
    assert!(!tracker.peers()[0].has_notification);
    assert!(!tracker.peers()[1].has_notification);
}

#[test]
fn selecting_an_unknown_peer_changes_nothing() {
    let mut tracker = PresenceTracker::new();
    tracker.select_peer(&"alice".to_string());
    assert_eq!(tracker.selected_peer(), None);
    tracker.observe_reachable_peers(&names(&["alice", "bob"]));
    tracker.observe_incoming_message(&message("bob", "hi"));
    tracker.select_peer(&"zed".to_string());
    assert_eq!(tracker.selected_peer().map(String::as_str), Some("alice"));
    assert_eq!(
        summary(&tracker),
        vec![entry("alice", State::Near, false), entry("bob", State::Near, true)]
    );
}

#[test]
fn selecting_an_index_beyond_the_list_changes_nothing() {
    let mut tracker = PresenceTracker::new();
    tracker.select_index(0);
    assert_eq!(tracker.selected_peer(), None);
    tracker.observe_reachable_peers(&names(&["alice", "bob"]));
    tracker.select_index(1);
    tracker.select_index(2);
    tracker.select_index(usize::MAX);
    assert_eq!(tracker.cursor(), 1);
    assert_eq!(tracker.selected_peer().map(String::as_str), Some("bob"));
}

#[test]
fn empty_snapshot_leaves_everyone_away() {
    let mut tracker = PresenceTracker::new();
    tracker.observe_reachable_peers(&names(&["alice", "bob"]));
    tracker.observe_incoming_message(&message("bob", "hi"));
    tracker.observe_reachable_peers(&names(&[]));
    assert_eq!(
        summary(&tracker),
        vec![entry("alice", State::Away, false), entry("bob", State::Away, true)]
    );
    assert_eq!(tracker.selected_peer().map(String::as_str), Some("alice"));
}

#[test]
fn peer_that_comes_back_is_near_again() {
    let mut tracker = PresenceTracker::new();
    tracker.observe_reachable_peers(&names(&["alice"]));
    tracker.observe_reachable_peers(&names(&[]));
    assert_eq!(summary(&tracker), vec![entry("alice", State::Away, false)]);
    tracker.observe_reachable_peers(&names(&["alice"]));
    assert_eq!(summary(&tracker), vec![entry("alice", State::Near, false)]);
}

#[test]
fn message_from_an_unseen_peer_while_another_is_selected() {
    let mut tracker = PresenceTracker::new();
    tracker.observe_reachable_peers(&names(&["alice"]));
    tracker.select_peer(&"alice".to_string());
    tracker.observe_incoming_message(&message("bob", "hello"));
    assert_eq!(
        summary(&tracker),
        vec![entry("alice", State::Near, false), entry("bob", State::Away, true)]
    );
    assert_eq!(tracker.selected_peer().map(String::as_str), Some("alice"));
}

#[test]
fn first_peer_of_all_is_selected() {
    let mut tracker = PresenceTracker::new();
    tracker.observe_reachable_peers(&names(&["alice", "bob"]));
    assert_eq!(tracker.selected_peer().map(String::as_str), Some("alice"));
    let mut tracker = PresenceTracker::new();
    tracker.observe_incoming_message(&message("bob", "hello"));
    assert_eq!(summary(&tracker), vec![entry("bob", State::Away, false)]);
    assert_eq!(tracker.selected_peer().map(String::as_str), Some("bob"));
}

#[test]
fn cursor_wraps_forward() {
    let mut tracker = PresenceTracker::new();
    tracker.observe_reachable_peers(&names(&["alice", "bob", "carol"]));
    assert_eq!(tracker.cursor(), 0);
    tracker.next();
    assert_eq!(tracker.cursor(), 1);
    tracker.next();
    assert_eq!(tracker.cursor(), 2);
    assert_eq!(tracker.selected_peer().map(String::as_str), Some("carol"));
    tracker.next();
    assert_eq!(tracker.cursor(), 0);
    assert_eq!(tracker.selected_peer().map(String::as_str), Some("alice"));
}

#[test]
fn cursor_wraps_backward() {
    let mut tracker = PresenceTracker::new();
    tracker.observe_reachable_peers(&names(&["alice", "bob", "carol"]));
    tracker.previous();
    assert_eq!(tracker.cursor(), 2);
    assert_eq!(tracker.selected_peer().map(String::as_str), Some("carol"));
    tracker.previous();
    assert_eq!(tracker.cursor(), 1);
    tracker.previous();
    assert_eq!(tracker.cursor(), 0);
}

#[test]
fn cursor_on_a_single_peer_stays() {
    let mut tracker = PresenceTracker::new();
    tracker.observe_reachable_peers(&names(&["alice"]));
    tracker.next();
    assert_eq!(tracker.cursor(), 0);
    tracker.previous();
    assert_eq!(tracker.cursor(), 0);
}

#[test]
fn cursor_on_an_empty_list_does_not_move() {
    let mut tracker = PresenceTracker::new();
    tracker.next();
    assert_eq!(tracker.cursor(), 0);
    tracker.previous();
    assert_eq!(tracker.cursor(), 0);
    assert_eq!(tracker.selected_peer(), None);
    assert!(tracker.peers().is_empty());
}

#[test]
fn moving_the_cursor_clears_the_notification_there() {
    let mut tracker = PresenceTracker::new();
    tracker.observe_reachable_peers(&names(&["alice", "bob"]));
    tracker.observe_incoming_message(&message("bob", "hi"));
    assert!(tracker.peers()[1].has_notification);
    tracker.next();
    assert!(!tracker.peers()[1].has_notification);
    assert_eq!(tracker.selected_peer().map(String::as_str), Some("bob"));
}

#[test]
fn payload_that_decodes_is_taken_note_of() {
    let mut tracker = PresenceTracker::new();
    tracker.observe_reachable_peers(&names(&["alice"]));
    let payload = format!(
        "{}{}{}{}45{}{}",
        NAME_START,
        hex::encode("bob"),
        NAME_END,
        MESSAGE_START,
        hex::encode("hello"),
        MESSAGE_END
    );
    let decoded = tracker.observe_payload(payload).unwrap();
    assert_eq!(decoded.sender, "bob");
    assert_eq!(decoded.message, "hello");
    assert_eq!(
        summary(&tracker),
        vec![entry("alice", State::Near, false), entry("bob", State::Away, true)]
    );
}

#[test]
fn payload_that_does_not_decode_is_no_message() {
    let mut tracker = PresenceTracker::new();
    tracker.observe_reachable_peers(&names(&["alice"]));
    let before = summary(&tracker);
    assert!(tracker.observe_payload(String::new()).is_none());
    assert!(tracker.observe_payload("not a bundle".to_string()).is_none());
    let payload = format!("{}{}{}45{}{}", NAME_START, hex::encode("bob"), NAME_END, hex::encode("hi"), MESSAGE_END);
    assert!(tracker.observe_payload(payload).is_none());
    let payload = format!("{}{}{}{}45{}", NAME_START, hex::encode("bob"), NAME_END, MESSAGE_START, hex::encode("hi"));
    assert!(tracker.observe_payload(payload).is_none());
    assert_eq!(summary(&tracker), before);
}

#[test]
fn contains_name_looks_for_the_whole_name() {
    let ids = names(&["alice", "bob"]);
    assert!(contains_name(&ids, &"bob".to_string()));
    assert!(!contains_name(&ids, &"bo".to_string()));
    assert!(!contains_name(&names(&[]), &"bob".to_string()));
}
