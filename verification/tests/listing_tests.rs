use dtn_chat::listing::{reachable_peers, skip_first_line, ListingError, LINE_END};
use dtn_chat::presence::{PresenceTracker, State};

fn ids(tracker: &PresenceTracker) -> Vec<(String, State)> {
    tracker.peers().iter().map(|p| (p.name.clone(), p.state)).collect()
}

#[test]
fn line_end_is_the_newline() {
    assert_eq!(LINE_END, "\n");
}

#[test]
fn skips_the_heading() {
    assert_eq!(skip_first_line(b"Listing of peers:\n{}"), b"{}");
    assert_eq!(skip_first_line(b"a\nb\nc"), b"b\nc");
    assert_eq!(skip_first_line(b"\nrest"), b"rest");
    assert_eq!(skip_first_line(b"heading\n"), b"");
}

#[test]
fn one_line_has_nothing_after_it() {
    assert_eq!(skip_first_line(b"only a heading"), b"");
    assert_eq!(skip_first_line(b""), b"");
}

#[test]
fn reads_the_names_of_the_peers() {
    let listing = "Listing of peers:\n{\"node2\": {\"eid\": \"dtn://node2/\"}, \"node1\": {\"eid\": \"dtn://node1/\"}}\n";
    let mut peers = reachable_peers(listing).unwrap();
    peers.sort();
    assert_eq!(peers, vec!["node1".to_string(), "node2".to_string()]);
}

#[test]
fn reads_an_object_over_several_lines() {
    let listing = "Listing of peers:\n{\n  \"alice\": {},\n  \"bob\": 1\n}\n";
    let mut peers = reachable_peers(listing).unwrap();
    peers.sort();
    assert_eq!(peers, vec!["alice".to_string(), "bob".to_string()]);
}

#[test]
fn empty_object_names_nobody() {
    assert_eq!(reachable_peers("Listing of peers:\n{}").unwrap(), Vec::<String>::new());
}

#[test]
fn listing_without_an_object_is_refused() {
    assert_eq!(reachable_peers("").unwrap_err(), ListingError::NotAnObject);
    assert_eq!(reachable_peers("{\"alice\": {}}").unwrap_err(), ListingError::NotAnObject);
    assert_eq!(reachable_peers("Listing of peers:\n").unwrap_err(), ListingError::NotAnObject);
    assert_eq!(reachable_peers("Listing of peers:\n[\"alice\"]").unwrap_err(), ListingError::NotAnObject);
    assert_eq!(reachable_peers("Listing of peers:\nconnection refused").unwrap_err(), ListingError::NotAnObject);
    assert_eq!(reachable_peers("Listing of peers:\n{\"alice\": ").unwrap_err(), ListingError::NotAnObject);
}

#[test]
fn tracker_takes_the_peers_of_a_listing() {
    let mut tracker = PresenceTracker::new();
    assert_eq!(tracker.observe_listing("Listing of peers:\n{\"alice\": {}}"), Ok(()));
    assert_eq!(ids(&tracker), vec![("alice".to_string(), State::Near)]);
    assert_eq!(tracker.observe_listing("Listing of peers:\n{\"bob\": {}}"), Ok(()));
    assert_eq!(
        ids(&tracker),
        vec![("alice".to_string(), State::Away), ("bob".to_string(), State::Near)]
    );
}

#[test]
fn tracker_ignores_a_malformed_listing() {
    let mut tracker = PresenceTracker::new();
    tracker.observe_listing("Listing of peers:\n{\"alice\": {}}").unwrap();
    assert_eq!(tracker.observe_listing("no daemon"), Err(ListingError::NotAnObject));
    assert_eq!(ids(&tracker), vec![("alice".to_string(), State::Near)]);
}
