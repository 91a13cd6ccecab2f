//! Which peers are known, which of them are reachable now, which have unread
//! messages, and which one is selected.
//!
//! The list of known peers only grows, in order of first discovery. A cursor
//! into that list decides the selected peer; the selected peer never holds a
//! pending notification.

use vstd::prelude::*;
use vstd::string::*;
use vstd::utf8::encode_utf8;
use crate::decode::{decoded_payload, extract_source_message, DecodedMessage};

verus! {

/// Whether a peer was in the latest snapshot of reachable peers.
#[derive(Clone, Copy, Debug, PartialEq, Eq, Structural)]
pub enum State {
    Near,
    Away,
}

impl State {
    /// The label shown for the state.
    pub fn to_string(&self) -> (r: String)
        ensures
            r@ == (match *self {
                State::Near => "Near"@,
                State::Away => "Away"@,
            }),
    {
        match self {
            State::Near => "Near".to_owned(),
            State::Away => "Away".to_owned(),
        }
    }
}

/// What stands before the name of a peer that has a pending notification.
pub const NOTIFICATION_MARK: &'static str = "\u{1F4E8} ";

/// A known peer, as plain values.
pub ghost struct PeerView {
    pub name: Seq<char>,
    pub state: State,
    pub has_notification: bool,
}

/// A peer that was seen at least once.
#[derive(Debug)]
pub struct SeenNode {
    pub name: String,
    pub state: State,
    pub has_notification: bool,
}

impl View for SeenNode {
    type V = PeerView;

    open spec fn view(&self) -> PeerView {
        PeerView { name: self.name@, state: self.state, has_notification: self.has_notification }
    }
}

impl SeenNode {
    /// A peer in the given state, with no pending notification.
    pub fn new(name: String, state: State) -> (r: Self)
        ensures
            r@ == (PeerView { name: name@, state: state, has_notification: false }),
    {
        SeenNode { name, state, has_notification: false }
    }

    /// The name under which the peer is listed.
    pub fn label(&self) -> (r: String)
        ensures
            r@ == label_of(self@),
    {
        if self.has_notification {
            NOTIFICATION_MARK.to_owned().concat(self.name.as_str())
        } else {
            self.name.clone()
        }
    }
}

/// The name under which a peer is listed: its own, behind the mark where a
/// notification is pending.
pub open spec fn label_of(peer: PeerView) -> Seq<char> {
    if peer.has_notification {
        NOTIFICATION_MARK@ + peer.name
    } else {
        peer.name
    }
}

/// `id` is the name of one of `peers`.
pub open spec fn known(peers: Seq<PeerView>, id: Seq<char>) -> bool {
    exists|i: int| 0 <= i < peers.len() && (#[trigger] peers[i]).name == id
}

/// The place of `id` in `peers`, if it is known.
pub open spec fn position(peers: Seq<PeerView>, id: Seq<char>) -> Option<int> {
    if known(peers, id) {
        Some(choose|i: int| 0 <= i < peers.len() && (#[trigger] peers[i]).name == id)
    } else {
        None
    }
}

/// No two of `peers` have the same name.
pub open spec fn distinct_names(peers: Seq<PeerView>) -> bool {
    forall|i: int, j: int|
        0 <= i < j < peers.len() ==> (#[trigger] peers[i]).name != (#[trigger] peers[j]).name
}

/// `peers`, followed by a new peer for each of `ids` that was not known, in
/// the order in which `ids` first names them.
pub open spec fn with_new_peers(peers: Seq<PeerView>, ids: Seq<Seq<char>>) -> Seq<PeerView>
    decreases ids.len(),
{
    if ids.len() == 0 {
        peers
    } else {
        let before = with_new_peers(peers, ids.drop_last());
        if known(before, ids.last()) {
            before
        } else {
            before.push(PeerView { name: ids.last(), state: State::Near, has_notification: false })
        }
    }
}

/// `peers`, each one near if `ids` names it and away if not.
pub open spec fn with_states(peers: Seq<PeerView>, ids: Seq<Seq<char>>) -> Seq<PeerView> {
    Seq::new(
        peers.len(),
        |i: int|
            PeerView {
                state: if ids.contains(peers[i].name) {
                    State::Near
                } else {
                    State::Away
                },
                ..peers[i]
            },
    )
}

/// The tracker's state, as plain values.
pub ghost struct TrackerView {
    pub peers: Seq<PeerView>,
    pub cursor: int,
}

impl TrackerView {
    /// Names are distinct, the cursor is on a peer where there is one, and the
    /// peer under the cursor has no pending notification.
    pub open spec fn wf(self) -> bool {
        &&& distinct_names(self.peers)
        &&& self.peers.len() == 0 ==> self.cursor == 0
        &&& self.peers.len() > 0 ==> 0 <= self.cursor < self.peers.len()
            && !self.peers[self.cursor].has_notification
    }

    /// The name of the selected peer: the one under the cursor.
    pub open spec fn selected(self) -> Option<Seq<char>> {
        if 0 <= self.cursor < self.peers.len() {
            Some(self.peers[self.cursor].name)
        } else {
            None
        }
    }

    /// The state after a snapshot of the reachable peers.
    pub open spec fn after_snapshot(self, current: Seq<Seq<char>>) -> TrackerView {
        TrackerView { peers: with_states(with_new_peers(self.peers, current), current), ..self }
    }

    /// The state after a message from `sender`. A message from the selected
    /// peer changes nothing. An unknown sender is appended as away; where it
    /// is the first peer of all it is thereby selected, and holds no
    /// notification.
    pub open spec fn after_message(self, sender: Seq<char>) -> TrackerView {
        if self.selected() == Some(sender) {
            self
        } else {
            match position(self.peers, sender) {
                Some(i) => TrackerView {
                    peers: self.peers.update(i, PeerView { has_notification: true, ..self.peers[i] }),
                    ..self
                },
                None => TrackerView {
                    peers: self.peers.push(
                        PeerView {
                            name: sender,
                            state: State::Away,
                            has_notification: self.peers.len() > 0,
                        },
                    ),
                    ..self
                },
            }
        }
    }

    /// The state after the cursor was put on place `index`; no change where
    /// there is no such place.
    pub open spec fn after_select_index(self, index: int) -> TrackerView {
        if 0 <= index < self.peers.len() {
            TrackerView {
                peers: self.peers.update(
                    index,
                    PeerView { has_notification: false, ..self.peers[index] },
                ),
                cursor: index,
            }
        } else {
            self
        }
    }

    /// The state after the peer named `id` was selected; no change where no
    /// such peer is known.
    pub open spec fn after_select(self, id: Seq<char>) -> TrackerView {
        match position(self.peers, id) {
            Some(i) => self.after_select_index(i),
            None => self,
        }
    }

    /// The place after the cursor's, the first place after the last.
    pub open spec fn next_index(self) -> int {
        if self.cursor + 1 >= self.peers.len() {
            0
        } else {
            self.cursor + 1
        }
    }

    /// The place before the cursor's, the last place before the first.
    pub open spec fn previous_index(self) -> int {
        if self.cursor == 0 {
            self.peers.len() - 1
        } else {
            self.cursor - 1
        }
    }
}

/// Under distinct names, a peer's place is the place where its name stands.
pub proof fn lemma_position(peers: Seq<PeerView>, id: Seq<char>, i: int)
    requires
        distinct_names(peers),
        0 <= i < peers.len(),
        peers[i].name == id,
    ensures
        position(peers, id) == Some(i),
{
    let k = choose|k: int| 0 <= k < peers.len() && (#[trigger] peers[k]).name == id;
    if k < i {
        assert(peers[k].name != peers[i].name);
    } else if i < k {
        assert(peers[i].name != peers[k].name);
    }
}

/// A place that `position` names holds the name that was asked for.
pub proof fn lemma_position_is_known(peers: Seq<PeerView>, id: Seq<char>)
    requires
        position(peers, id) is Some,
    ensures
        0 <= position(peers, id)->0 < peers.len(),
        peers[position(peers, id)->0].name == id,
{
}

/// New peers are appended: those that were known keep their places.
pub proof fn lemma_new_peers_extend(peers: Seq<PeerView>, ids: Seq<Seq<char>>)
    ensures
        peers.len() <= with_new_peers(peers, ids).len(),
        forall|i: int| 0 <= i < peers.len() ==> with_new_peers(peers, ids)[i] == peers[i],
    decreases ids.len(),
{
    if ids.len() > 0 {
        lemma_new_peers_extend(peers, ids.drop_last());
    }
}

/// The names that a list of strings holds.
pub open spec fn names_of(ids: Seq<String>) -> Seq<Seq<char>> {
    ids.map_values(|id: String| id@)
}

/// Whether `ids` holds `id`.
pub fn contains_name(ids: &Vec<String>, id: &String) -> (r: bool)
    ensures
        r == names_of(ids@).contains(id@),
{
    let mut k: usize = 0;
    while k < ids.len()
        invariant
            k <= ids.len(),
            forall|j: int| 0 <= j < k ==> names_of(ids@)[j] != id@,
        decreases ids.len() - k,
    {
        if ids[k] == *id {
            assert(names_of(ids@)[k as int] == id@);
            return true;
        }
        k += 1;
    }
    false
}

/// The place of the node named `id` in `nodes`.
fn find_node(nodes: &Vec<SeenNode>, id: &String) -> (r: Option<usize>)
    requires
        distinct_names(peers_of(nodes@)),
    ensures
        match r {
            Some(i) => position(peers_of(nodes@), id@) == Some(i as int) && i < nodes@.len(),
            None => position(peers_of(nodes@), id@) is None,
        },
{
    let mut i: usize = 0;
    while i < nodes.len()
        invariant
            i <= nodes.len(),
            distinct_names(peers_of(nodes@)),
            forall|j: int| 0 <= j < i ==> (#[trigger] peers_of(nodes@)[j]).name != id@,
        decreases nodes.len() - i,
    {
        if nodes[i].name == *id {
            proof {
                lemma_position(peers_of(nodes@), id@, i as int);
            }
            return Some(i);
        }
        i += 1;
    }
    None
}

/// The peers seen so far, with the cursor that selects one of them.
pub struct PresenceTracker {
    nodes: Vec<SeenNode>,
    cursor: usize,
}

/// The peers of a list of nodes, as plain values.
pub open spec fn peers_of(nodes: Seq<SeenNode>) -> Seq<PeerView> {
    nodes.map_values(|n: SeenNode| n@)
}

impl View for PresenceTracker {
    type V = TrackerView;

    closed spec fn view(&self) -> TrackerView {
        TrackerView {
            peers: peers_of(self.nodes@),
            cursor: if self.nodes@.len() == 0 {
                0
            } else {
                self.cursor as int
            },
        }
    }
}

impl PresenceTracker {
    /// What holds of every tracker: its state is well-formed.
    #[verifier::type_invariant]
    pub open spec fn well_formed(self) -> bool {
        self@.wf()
    }

    /// A tracker that has seen no peer.
    pub fn new() -> (r: Self)
        ensures
            r@ == (TrackerView { peers: Seq::empty(), cursor: 0 }),
            r@.wf(),
    {
        let nodes: Vec<SeenNode> = Vec::new();
        assert(peers_of(nodes@) =~= Seq::empty());
        PresenceTracker { nodes, cursor: 0 }
    }

    /// Takes the list of peers out of the tracker, which is left empty.
    fn take_nodes(&mut self) -> (nodes: Vec<SeenNode>)
        ensures
            nodes@ == old(self).nodes@,
            final(self).nodes@.len() == 0,
            final(self).cursor == old(self).cursor,
    {
        let mut nodes: Vec<SeenNode> = Vec::new();
        core::mem::swap(&mut self.nodes, &mut nodes);
        nodes
    }

    /// Puts a list of peers into the tracker, with the cursor at `cursor`.
    fn put_nodes(&mut self, nodes: Vec<SeenNode>, cursor: usize)
        requires
            old(self).nodes@.len() == 0,
            (TrackerView { peers: peers_of(nodes@), cursor: cursor as int }).wf(),
        ensures
            final(self)@ == (TrackerView { peers: peers_of(nodes@), cursor: cursor as int }),
    {
        let mut nodes = nodes;
        self.cursor = cursor;
        core::mem::swap(&mut self.nodes, &mut nodes);
    }

    /// The known peers, in order of first discovery.
    pub fn peers(&self) -> (r: &Vec<SeenNode>)
        ensures
            peers_of(r@) == self@.peers,
            self@.wf(),
    {
        proof {
            use_type_invariant(self);
        }
        &self.nodes
    }

    /// The place of the cursor in the list of known peers.
    pub fn cursor(&self) -> (r: usize)
        ensures
            r == self@.cursor,
    {
        if self.nodes.len() == 0 {
            0
        } else {
            self.cursor
        }
    }

    /// The place of the peer named `id` in the list of known peers.
    pub fn position_of(&self, id: &String) -> (r: Option<usize>)
        ensures
            match r {
                Some(i) => position(self@.peers, id@) == Some(i as int),
                None => position(self@.peers, id@) is None,
            },
    {
        proof {
            use_type_invariant(self);
        }
        find_node(&self.nodes, id)
    }

    /// The name of the peer at place `index`, if there is one.
    pub fn peer_id_at(&self, index: usize) -> (r: Option<&String>)
        ensures
            match r {
                Some(id) => index < self@.peers.len() && id@ == self@.peers[index as int].name,
                None => index >= self@.peers.len(),
            },
    {
        if index < self.nodes.len() {
            Some(&self.nodes[index].name)
        } else {
            None
        }
    }

    /// The name of the selected peer; none while no peer is known.
    pub fn selected_peer(&self) -> (r: Option<&String>)
        ensures
            match r {
                Some(id) => self@.selected() == Some(id@),
                None => self@.selected() is None,
            },
    {
        proof {
            use_type_invariant(self);
        }
        self.peer_id_at(self.cursor())
    }

    /// Puts the cursor on place `index`, which selects the peer there and
    /// clears its notification. An index beyond the list changes nothing.
    pub fn select_index(&mut self, index: usize)
        ensures
            final(self)@ == old(self)@.after_select_index(index as int),
            final(self)@.wf(),
    {
        proof {
            use_type_invariant(&*self);
        }
        if index < self.nodes.len() {
            let mut nodes = self.take_nodes();
            nodes[index].has_notification = false;
            assert(peers_of(nodes@) =~= old(self)@.after_select_index(index as int).peers);
            self.put_nodes(nodes, index);
        }
    }

    /// Selects the peer named `id` and clears its notification. A name that
    /// is not known changes nothing.
    pub fn select_peer(&mut self, id: &String)
        ensures
            final(self)@ == old(self)@.after_select(id@),
            final(self)@.wf(),
            forall|i: int|
                0 <= i < final(self)@.peers.len() && (#[trigger] final(self)@.peers[i]).name == id@
                    ==> !final(self)@.peers[i].has_notification,
    {
        proof {
            use_type_invariant(&*self);
        }
        match self.position_of(id) {
            Some(i) => {
                proof {
                    lemma_position_is_known(self@.peers, id@);
                }
                self.select_index(i);
            },
            None => {},
        }
    }

    /// Moves the cursor to the next peer, from the last one to the first, and
    /// selects the peer there. With no peer known nothing changes.
    pub fn next(&mut self)
        ensures
            final(self)@ == old(self)@.after_select_index(old(self)@.next_index()),
            final(self)@.wf(),
    {
        proof {
            use_type_invariant(&*self);
        }
        if self.nodes.len() > 0 {
            let index = if self.cursor >= self.nodes.len() - 1 {
                0
            } else {
                self.cursor + 1
            };
            self.select_index(index);
        }
    }

    /// Moves the cursor to the peer before, from the first one to the last,
    /// and selects the peer there. With no peer known nothing changes.
    pub fn previous(&mut self)
        ensures
            final(self)@ == old(self)@.after_select_index(old(self)@.previous_index()),
            final(self)@.wf(),
    {
        proof {
            use_type_invariant(&*self);
        }
        if self.nodes.len() > 0 {
            let index = if self.cursor == 0 {
                self.nodes.len() - 1
            } else {
                self.cursor - 1
            };
            self.select_index(index);
        }
    }

    /// Takes note of a decoded message. A message from the selected peer
    /// changes nothing. Any other sender gets a pending notification, and is
    /// first appended, as away, where it was not known.
    pub fn observe_incoming_message(&mut self, msg: &DecodedMessage)
        ensures
            final(self)@ == old(self)@.after_message(msg@.sender),
            final(self)@.wf(),
            old(self)@.selected() == Some(msg@.sender) ==> final(self)@ == old(self)@,
            final(self)@.peers.len() >= old(self)@.peers.len(),
            forall|i: int|
                0 <= i < old(self)@.peers.len() ==> (#[trigger] final(self)@.peers[i]).name == old(
                    self,
                )@.peers[i].name,
    {
        proof {
            use_type_invariant(&*self);
        }
        let cursor = self.cursor();
        match self.position_of(&msg.sender) {
            Some(i) => {
                proof {
                    lemma_position_is_known(self@.peers, msg@.sender);
                }
                if i != cursor {
                    let mut nodes = self.take_nodes();
                    nodes[i].has_notification = true;
                    assert(peers_of(nodes@) =~= old(self)@.after_message(msg@.sender).peers);
                    self.put_nodes(nodes, cursor);
                }
            },
            None => {
                let mut nodes = self.take_nodes();
                let mut node = SeenNode::new(msg.sender.clone(), State::Away);
                node.has_notification = nodes.len() > 0;
                nodes.push(node);
                assert(peers_of(nodes@) =~= old(self)@.after_message(msg@.sender).peers);
                self.put_nodes(nodes, cursor);
            },
        }
    }

    /// Reconciles the tracker with a snapshot of the reachable peers. Each
    /// name of `current` that was not known is appended, in the order in
    /// which `current` first gives it; then every known peer is near if
    /// `current` names it and away if not. Beyond that order `current` counts
    /// as a set.
    pub fn observe_reachable_peers(&mut self, current: &Vec<String>)
        ensures
            final(self)@ == old(self)@.after_snapshot(names_of(current@)),
            final(self)@.wf(),
            final(self)@.peers.len() >= old(self)@.peers.len(),
            forall|i: int|
                0 <= i < old(self)@.peers.len() ==> (#[trigger] final(self)@.peers[i]).name == old(
                    self,
                )@.peers[i].name && final(self)@.peers[i].has_notification == old(
                    self,
                )@.peers[i].has_notification,
            forall|i: int|
                0 <= i < final(self)@.peers.len() ==> ((#[trigger] final(self)@.peers[i]).state
                    == State::Near <==> names_of(current@).contains(final(self)@.peers[i].name)),
    {
        proof {
            use_type_invariant(&*self);
        }
        let ghost ids = names_of(current@);
        let ghost known_before = old(self)@.peers;
        let cursor = self.cursor();
        let mut nodes = self.take_nodes();
        let mut k: usize = 0;
        while k < current.len()
            invariant
                k <= current.len(),
                ids == names_of(current@),
                distinct_names(peers_of(nodes@)),
                known_before.len() <= nodes@.len(),
                forall|j: int|
                    known_before.len() <= j < nodes@.len() ==> !(#[trigger] peers_of(
                        nodes@,
                    )[j]).has_notification,
                forall|j: int|
                    0 <= j < known_before.len() ==> #[trigger] peers_of(nodes@)[j] == known_before[j],
                peers_of(nodes@) == with_new_peers(known_before, ids.take(k as int)),
            decreases current.len() - k,
        {
            proof {
                assert(ids.take(k + 1).drop_last() =~= ids.take(k as int));
            }
            match find_node(&nodes, &current[k]) {
                Some(_) => {},
                None => {
                    nodes.push(SeenNode::new(current[k].clone(), State::Near));
                    assert(peers_of(nodes@) =~= with_new_peers(known_before, ids.take(k + 1)));
                },
            }
            k += 1;
        }
        assert(ids.take(k as int) =~= ids);
        let ghost grown = peers_of(nodes@);
        let mut i: usize = 0;
        while i < nodes.len()
            invariant
                i <= nodes.len(),
                ids == names_of(current@),
                nodes@.len() == grown.len(),
                forall|j: int| 0 <= j < i ==> #[trigger] peers_of(nodes@)[j] == with_states(grown, ids)[j],
                forall|j: int| i <= j < grown.len() ==> #[trigger] peers_of(nodes@)[j] == grown[j],
            decreases nodes.len() - i,
        {
            let ghost before = peers_of(nodes@);
            let near = contains_name(current, &nodes[i].name);
            nodes[i].state = if near {
                State::Near
            } else {
                State::Away
            };
            assert(peers_of(nodes@) =~= before.update(
                i as int,
                PeerView { state: nodes@[i as int].state, ..before[i as int] },
            ));
            i += 1;
        }
        assert(peers_of(nodes@) =~= with_states(grown, ids));
        self.put_nodes(nodes, cursor);
    }

    /// Decodes a freshly received payload and takes note of the message it
    /// holds. A payload that does not decode, the empty one among them, is no
    /// message: nothing is returned and nothing changes.
    pub fn observe_payload(&mut self, payload: String) -> (r: Option<DecodedMessage>)
        ensures
            final(self)@.wf(),
            match decoded_payload(encode_utf8(payload@)) {
                Ok(text) => r matches Some(m) && m@ == text && final(self)@ == old(
                    self,
                )@.after_message(text.sender),
                Err(_) => r is None && final(self)@ == old(self)@,
            },
    {
        proof {
            use_type_invariant(&*self);
        }
        match extract_source_message(payload) {
            Ok(msg) => {
                self.observe_incoming_message(&msg);
                Some(msg)
            },
            Err(_) => None,
        }
    }
}

} // verus!
