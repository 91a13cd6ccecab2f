//! What holds of the tracker's state over any sequence of events.

use vstd::prelude::*;
use crate::presence::{
    distinct_names, known, lemma_new_peers_extend, lemma_position_is_known, position, with_new_peers,
    with_states, PeerView, State, TrackerView,
};

verus! {

/// One call on the tracker, as plain values.
pub ghost enum Event {
    /// A snapshot of the reachable peers.
    Snapshot(Seq<Seq<char>>),
    /// A message from the given sender.
    Message(Seq<char>),
    /// The selection of a peer by name.
    Select(Seq<char>),
    /// The selection of a peer by place.
    SelectIndex(int),
    /// The cursor moves to the next peer.
    Next,
    /// The cursor moves to the peer before.
    Previous,
}

/// The state after one event.
pub open spec fn step(v: TrackerView, e: Event) -> TrackerView {
    match e {
        Event::Snapshot(current) => v.after_snapshot(current),
        Event::Message(sender) => v.after_message(sender),
        Event::Select(id) => v.after_select(id),
        Event::SelectIndex(index) => v.after_select_index(index),
        Event::Next => v.after_select_index(v.next_index()),
        Event::Previous => v.after_select_index(v.previous_index()),
    }
}

/// The state after a sequence of events, the first of them first.
pub open spec fn replay(v: TrackerView, events: Seq<Event>) -> TrackerView
    decreases events.len(),
{
    if events.len() == 0 {
        v
    } else {
        step(replay(v, events.drop_last()), events.last())
    }
}

/// `later` holds every peer of `earlier` at the same place, under the same name.
pub open spec fn keeps_places(earlier: TrackerView, later: TrackerView) -> bool {
    &&& earlier.peers.len() <= later.peers.len()
    &&& forall|i: int|
        0 <= i < earlier.peers.len() ==> (#[trigger] later.peers[i]).name == earlier.peers[i].name
}

/// What appending the new peers of a snapshot does: names stay distinct, and
/// each appended peer is near, without notification, and named by the snapshot.
pub proof fn lemma_new_peers(peers: Seq<PeerView>, ids: Seq<Seq<char>>)
    requires
        distinct_names(peers),
    ensures
        distinct_names(with_new_peers(peers, ids)),
        forall|i: int|
            peers.len() <= i < with_new_peers(peers, ids).len() ==> {
                let p = #[trigger] with_new_peers(peers, ids)[i];
                !p.has_notification && p.state == State::Near && ids.contains(p.name)
            },
    decreases ids.len(),
{
    if ids.len() > 0 {
        let before = with_new_peers(peers, ids.drop_last());
        lemma_new_peers(peers, ids.drop_last());
        lemma_new_peers_extend(peers, ids.drop_last());
        let after = with_new_peers(peers, ids);
        assert forall|i: int| peers.len() <= i < after.len() implies {
            let p = #[trigger] after[i];
            !p.has_notification && p.state == State::Near && ids.contains(p.name)
        } by {
            if i < before.len() {
                let k = choose|k: int|
                    0 <= k < ids.drop_last().len() && ids.drop_last()[k] == before[i].name;
                assert(ids[k] == before[i].name);
            } else {
                assert(ids[ids.len() - 1] == after[i].name);
            }
        }
    }
}

/// After the new peers of a snapshot were appended, each name of the snapshot
/// is known.
pub proof fn lemma_snapshot_names_known(peers: Seq<PeerView>, ids: Seq<Seq<char>>, k: int)
    requires
        0 <= k < ids.len(),
    ensures
        known(with_new_peers(peers, ids), ids[k]),
    decreases ids.len(),
{
    let before = with_new_peers(peers, ids.drop_last());
    let after = with_new_peers(peers, ids);
    if k < ids.len() - 1 {
        lemma_snapshot_names_known(peers, ids.drop_last(), k);
        let i = choose|i: int| 0 <= i < before.len() && (#[trigger] before[i]).name == ids[k];
        assert(after[i].name == ids[k]);
    } else {
        if known(before, ids.last()) {
        } else {
            assert(after[after.len() - 1].name == ids[k]);
        }
    }
}

/// A snapshot whose names are all known appends nothing.
pub proof fn lemma_nothing_new(peers: Seq<PeerView>, ids: Seq<Seq<char>>)
    requires
        forall|k: int| 0 <= k < ids.len() ==> known(peers, #[trigger] ids[k]),
    ensures
        with_new_peers(peers, ids) == peers,
    decreases ids.len(),
{
    if ids.len() > 0 {
        assert forall|k: int| 0 <= k < ids.drop_last().len() implies known(
            peers,
            #[trigger] ids.drop_last()[k],
        ) by {
            assert(ids.drop_last()[k] == ids[k]);
        }
        lemma_nothing_new(peers, ids.drop_last());
        assert(known(peers, ids[ids.len() - 1]));
    }
}

/// Reconciling twice in a row with the same snapshot gives what reconciling
/// once gives: the same peers in the same order, in the same states.
pub proof fn lemma_snapshot_idempotent(v: TrackerView, current: Seq<Seq<char>>)
    ensures
        v.after_snapshot(current).after_snapshot(current) == v.after_snapshot(current),
{
    let grown = with_new_peers(v.peers, current);
    let once = v.after_snapshot(current);
    assert forall|k: int| 0 <= k < current.len() implies known(once.peers, #[trigger] current[k]) by {
        lemma_snapshot_names_known(v.peers, current, k);
        let i = choose|i: int| 0 <= i < grown.len() && (#[trigger] grown[i]).name == current[k];
        assert(once.peers[i].name == current[k]);
    }
    lemma_nothing_new(once.peers, current);
    assert(with_states(once.peers, current) =~= once.peers);
}

/// A snapshot that names nobody removes no peer and changes no name and no
/// notification: it leaves every known peer away.
pub proof fn lemma_empty_snapshot(v: TrackerView)
    ensures
        v.after_snapshot(Seq::empty()).cursor == v.cursor,
        v.after_snapshot(Seq::empty()).peers.len() == v.peers.len(),
        forall|i: int|
            0 <= i < v.peers.len() ==> #[trigger] v.after_snapshot(Seq::empty()).peers[i] == (PeerView {
                state: State::Away,
                ..v.peers[i]
            }),
{
    let nobody = Seq::<Seq<char>>::empty();
    assert(with_new_peers(v.peers, nobody) == v.peers);
}

/// Every event leaves a well-formed state well-formed.
pub proof fn lemma_step_keeps_wf(v: TrackerView, e: Event)
    requires
        v.wf(),
    ensures
        step(v, e).wf(),
{
    match e {
        Event::Snapshot(current) => {
            lemma_new_peers(v.peers, current);
            lemma_new_peers_extend(v.peers, current);
        },
        Event::Message(sender) => {
            if position(v.peers, sender) is Some {
                lemma_position_is_known(v.peers, sender);
            }
        },
        Event::Select(id) => {
            if position(v.peers, id) is Some {
                lemma_position_is_known(v.peers, id);
            }
        },
        _ => {},
    }
}

/// No event removes a peer, moves one to another place or renames one.
pub proof fn lemma_step_keeps_places(v: TrackerView, e: Event)
    ensures
        keeps_places(v, step(v, e)),
{
    match e {
        Event::Snapshot(current) => {
            lemma_new_peers_extend(v.peers, current);
        },
        Event::Message(sender) => {
            if position(v.peers, sender) is Some {
                lemma_position_is_known(v.peers, sender);
            }
        },
        Event::Select(id) => {
            if position(v.peers, id) is Some {
                lemma_position_is_known(v.peers, id);
            }
        },
        _ => {},
    }
}

/// Any sequence of events leaves a well-formed state well-formed.
pub proof fn lemma_replay_keeps_wf(v: TrackerView, events: Seq<Event>)
    requires
        v.wf(),
    ensures
        replay(v, events).wf(),
    decreases events.len(),
{
    if events.len() > 0 {
        lemma_replay_keeps_wf(v, events.drop_last());
        lemma_step_keeps_wf(replay(v, events.drop_last()), events.last());
    }
}

/// Over any sequence of events the list of known peers never gets shorter,
/// and a peer's place in it, once assigned, never changes.
pub proof fn lemma_replay_keeps_places(v: TrackerView, events: Seq<Event>)
    ensures
        keeps_places(v, replay(v, events)),
    decreases events.len(),
{
    if events.len() > 0 {
        lemma_replay_keeps_places(v, events.drop_last());
        lemma_step_keeps_places(replay(v, events.drop_last()), events.last());
    }
}

} // verus!
