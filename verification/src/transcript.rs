//! The entries of the chat transcript and the conversation with one peer.
//!
//! A message received from a peer is stored under the peer's name; one that
//! the local user wrote to a peer is stored under that name with a suffix.

use vstd::prelude::*;
use vstd::string::*;
use crate::decode::DecodedMessage;

verus! {

/// What follows a peer's name in the sender of a message written to that peer.
pub const SELF_SUFFIX: &'static str = "(self)";

/// The speaker shown for a message that the local user wrote.
pub const SELF_LABEL: &'static str = "You";

/// One entry of the transcript, as plain text.
pub ghost struct EntryView {
    pub sender: Seq<char>,
    pub message: Seq<char>,
}

/// One entry of the transcript.
#[derive(Debug)]
pub struct TranscriptEntry {
    pub sender: String,
    pub message: String,
}

impl View for TranscriptEntry {
    type V = EntryView;

    open spec fn view(&self) -> EntryView {
        EntryView { sender: self.sender@, message: self.message@ }
    }
}

/// One line of a conversation, as plain text.
pub ghost struct LineView {
    pub speaker: Seq<char>,
    pub text: Seq<char>,
    pub own: bool,
}

/// One line of a conversation: who speaks, what is said, and whether the
/// local user wrote it.
#[derive(Debug)]
pub struct ChatLine {
    pub speaker: String,
    pub text: String,
    pub own: bool,
}

impl View for ChatLine {
    type V = LineView;

    open spec fn view(&self) -> LineView {
        LineView { speaker: self.speaker@, text: self.text@, own: self.own }
    }
}

/// The sender under which a message written to `peer` is stored.
pub open spec fn self_authored(peer: Seq<char>) -> Seq<char> {
    peer + SELF_SUFFIX@
}

/// The entry is part of the conversation with `peer`: `peer` sent it, or it
/// was written to `peer`.
pub open spec fn in_conversation(entry: EntryView, peer: Seq<char>) -> bool {
    entry.sender == peer || entry.sender == self_authored(peer)
}

/// The line shown for an entry of the conversation with `peer`.
pub open spec fn line_of(entry: EntryView, peer: Seq<char>) -> LineView {
    if entry.sender == self_authored(peer) {
        LineView { speaker: SELF_LABEL@, text: entry.message, own: true }
    } else {
        LineView { speaker: entry.sender, text: entry.message, own: false }
    }
}

/// The conversation with `peer`: the lines of its entries, in the order of
/// the transcript.
pub open spec fn conversation_of(entries: Seq<EntryView>, peer: Seq<char>) -> Seq<LineView> {
    entries.filter(|e: EntryView| in_conversation(e, peer)).map_values(|e: EntryView| line_of(e, peer))
}

/// The entries of a transcript, as plain text.
pub open spec fn entries_of(entries: Seq<TranscriptEntry>) -> Seq<EntryView> {
    entries.map_values(|e: TranscriptEntry| e@)
}

/// The lines of a conversation, as plain text.
pub open spec fn lines_of(lines: Seq<ChatLine>) -> Seq<LineView> {
    lines.map_values(|l: ChatLine| l@)
}

/// The sender under which a message written to `peer` is stored.
pub fn self_sender(peer: &String) -> (r: String)
    ensures
        r@ == self_authored(peer@),
{
    peer.clone().concat(SELF_SUFFIX)
}

impl TranscriptEntry {
    /// The entry for a message that was received.
    pub fn received(msg: DecodedMessage) -> (r: Self)
        ensures
            r@ == (EntryView { sender: msg@.sender, message: msg@.message }),
    {
        TranscriptEntry { sender: msg.sender, message: msg.message }
    }

    /// The entry for a message that the local user wrote to `peer`.
    pub fn sent(peer: &String, message: String) -> (r: Self)
        ensures
            r@ == (EntryView { sender: self_authored(peer@), message: message@ }),
    {
        TranscriptEntry { sender: self_sender(peer), message }
    }

    /// Whether the entry is part of the conversation with `peer`.
    pub fn belongs_to(&self, peer: &String) -> (r: bool)
        ensures
            r == in_conversation(self@, peer@),
    {
        self.sender == *peer || self.sender == self_sender(peer)
    }

    /// The line shown for the entry in the conversation with `peer`.
    pub fn line(&self, peer: &String) -> (r: ChatLine)
        ensures
            r@ == line_of(self@, peer@),
    {
        if self.sender == self_sender(peer) {
            ChatLine { speaker: SELF_LABEL.to_owned(), text: self.message.clone(), own: true }
        } else {
            ChatLine { speaker: self.sender.clone(), text: self.message.clone(), own: false }
        }
    }
}

/// The conversation with `peer`: a line for each entry that `peer` sent or
/// that was written to `peer`, in the order of the transcript.
pub fn conversation(entries: &Vec<TranscriptEntry>, peer: &String) -> (r: Vec<ChatLine>)
    ensures
        lines_of(r@) == conversation_of(entries_of(entries@), peer@),
{
    let ghost all = entries_of(entries@);
    let ghost wanted = |e: EntryView| in_conversation(e, peer@);
    let ghost shown = |e: EntryView| line_of(e, peer@);
    let mut lines: Vec<ChatLine> = Vec::new();
    let mut i: usize = 0;
    assert(all.take(0).filter(wanted) =~= Seq::<EntryView>::empty()) by {
        reveal(Seq::filter);
    }
    while i < entries.len()
        invariant
            i <= entries.len(),
            all == entries_of(entries@),
            wanted == |e: EntryView| in_conversation(e, peer@),
            shown == |e: EntryView| line_of(e, peer@),
            lines_of(lines@) == all.take(i as int).filter(wanted).map_values(shown),
        decreases entries.len() - i,
    {
        proof {
            all.lemma_take_succ_push(i as int);
            all.take(i as int).lemma_filter_push(all[i as int], wanted);
            all.take(i as int).filter(wanted).lemma_push_map_commute(shown, all[i as int]);
        }
        if entries[i].belongs_to(peer) {
            let line = entries[i].line(peer);
            lines.push(line);
        }
        i += 1;
    }
    assert(all.take(i as int) =~= all);
    lines
}

} // verus!
