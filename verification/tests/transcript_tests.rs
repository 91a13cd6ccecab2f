use dtn_chat::decode::DecodedMessage;
use dtn_chat::transcript::{
    conversation, self_sender, ChatLine, TranscriptEntry, SELF_LABEL, SELF_SUFFIX,
};

fn entry(sender: &str, message: &str) -> TranscriptEntry {
    TranscriptEntry { sender: sender.to_string(), message: message.to_string() }
}

fn shown(lines: &[ChatLine]) -> Vec<(String, String, bool)> {
    lines.iter().map(|l| (l.speaker.clone(), l.text.clone(), l.own)).collect()
}

fn line(speaker: &str, text: &str, own: bool) -> (String, String, bool) {
    (speaker.to_string(), text.to_string(), own)
}

#[test]
fn suffix_and_label() {
    assert_eq!(SELF_SUFFIX, "(self)");
    assert_eq!(SELF_LABEL, "You");
}

#[test]
fn self_sender_appends_the_suffix() {
    assert_eq!(self_sender(&"alice".to_string()), "alice(self)");
    assert_eq!(self_sender(&String::new()), "(self)");
}

#[test]
fn received_entry_keeps_the_sender() {
    let msg = DecodedMessage { sender: "bob".to_string(), message: "hi".to_string() };
    let e = TranscriptEntry::received(msg);
    assert_eq!(e.sender, "bob");
    assert_eq!(e.message, "hi");
}

#[test]
fn sent_entry_carries_the_suffix() {
    let e = TranscriptEntry::sent(&"bob".to_string(), "hello bob".to_string());
    assert_eq!(e.sender, "bob(self)");
    assert_eq!(e.message, "hello bob");
}

#[test]
fn entry_belongs_to_its_peer_only() {
    let peer = "bob".to_string();
    assert!(entry("bob", "x").belongs_to(&peer));
    assert!(entry("bob(self)", "x").belongs_to(&peer));
    assert!(!entry("bobby", "x").belongs_to(&peer));
    assert!(!entry("alice", "x").belongs_to(&peer));
    assert!(!entry("alice(self)", "x").belongs_to(&peer));
    assert!(!entry("bob(self)(self)", "x").belongs_to(&peer));
    assert!(!entry("(self)", "x").belongs_to(&peer));
    assert!(!entry("", "x").belongs_to(&peer));
}

#[test]
fn line_names_the_speaker() {
    let peer = "bob".to_string();
    let l = entry("bob", "hi").line(&peer);
    assert_eq!((l.speaker.as_str(), l.text.as_str(), l.own), ("bob", "hi", false));
    let l = entry("bob(self)", "hello").line(&peer);
    assert_eq!((l.speaker.as_str(), l.text.as_str(), l.own), ("You", "hello", true));
}

#[test]
fn conversation_keeps_the_order_of_the_transcript() {
    let entries = vec![
        entry("alice", "one"),
        entry("bob", "two"),
        entry("bob(self)", "three"),
        entry("alice(self)", "four"),
        entry("carol", "five"),
        entry("bob", "six"),
    ];
    assert_eq!(
        shown(&conversation(&entries, &"bob".to_string())),
        vec![line("bob", "two", false), line("You", "three", true), line("bob", "six", false)]
    );
    assert_eq!(
        shown(&conversation(&entries, &"alice".to_string())),
        vec![line("alice", "one", false), line("You", "four", true)]
    );
    assert!(conversation(&entries, &"dave".to_string()).is_empty());
}

#[test]
fn conversation_of_an_empty_transcript_is_empty() {
    assert!(conversation(&Vec::new(), &"bob".to_string()).is_empty());
}
