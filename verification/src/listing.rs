//! The listing of reachable peers, as the peer query prints it: one line of
//! heading, then a JSON object with one member for each reachable peer.

use vstd::prelude::*;
use vstd::slice::slice_subrange;
use vstd::string::*;
use crate::pattern::{find_from, first_occurrence, lemma_first_occurrence_is_least};
use crate::presence::{names_of, PresenceTracker};

verus! {

/// What ends the heading of the listing.
pub const LINE_END: &'static str = "\n";

/// Why a listing gave no peers.
#[derive(Clone, Copy, Debug, PartialEq, Eq, Structural)]
pub enum ListingError {
    /// What follows the heading is not a JSON object.
    NotAnObject,
}

/// The error of `serde_json::from_slice`, carried through unread.
#[verifier::external_type_specification]
#[verifier::external_body]
pub struct ExJsonError(serde_json::Error);

/// What `serde_json` reads from `text` as a JSON object: the names of its
/// members, in the order in which the `serde_json::Map` gives them; none
/// where it reads no object from `text`.
pub uninterp spec fn json_member_names(text: Seq<u8>) -> Option<Seq<Seq<char>>>;

/// Calls `serde_json::from_slice` for a `serde_json::Map` and hands out the
/// names of its members. The contract only gives the result its name.
#[verifier::external_body]
pub(crate) fn parse_member_names(text: &[u8]) -> (r: Result<Vec<String>, serde_json::Error>)
    ensures
        match r {
            Ok(names) => json_member_names(text@) == Some(names_of(names@)),
            Err(_) => json_member_names(text@) is None,
        },
{
    let object: serde_json::Map<String, serde_json::Value> = serde_json::from_slice(text)?;
    Ok(object.keys().cloned().collect())
}

/// What follows the first line of `text`; nothing where `text` is one line.
pub open spec fn after_first_line(text: Seq<u8>) -> Seq<u8> {
    match first_occurrence(text, LINE_END.spec_bytes(), 0) {
        Some(i) => text.skip(i + 1),
        None => Seq::empty(),
    }
}

/// The peers that a listing names, if it is well-formed.
pub open spec fn listed_peers(listing: Seq<u8>) -> Option<Seq<Seq<char>>> {
    json_member_names(after_first_line(listing))
}

/// What follows the first line of `text`.
pub fn skip_first_line(text: &[u8]) -> (r: &[u8])
    ensures
        r@ == after_first_line(text@),
{
    let line_end = LINE_END.as_bytes();
    proof {
        reveal_strlit("\n");
        is_ascii_spec_bytes(LINE_END);
    }
    match find_from(text, line_end, 0) {
        Some(i) => {
            proof {
                lemma_first_occurrence_is_least(text@, line_end@, 0, i as int);
                assert(i + 1 <= text.len());
            }
            slice_subrange(text, i + 1, text.len())
        },
        None => {
            slice_subrange(text, 0, 0)
        },
    }
}

/// The peers that the listing names.
pub fn reachable_peers(listing: &str) -> (r: Result<Vec<String>, ListingError>)
    ensures
        match r {
            Ok(ids) => listed_peers(listing.spec_bytes()) == Some(names_of(ids@)),
            Err(_) => listed_peers(listing.spec_bytes()) is None,
        },
{
    match parse_member_names(skip_first_line(listing.as_bytes())) {
        Ok(ids) => Ok(ids),
        Err(_) => Err(ListingError::NotAnObject),
    }
}

impl PresenceTracker {
    /// Reconciles the tracker with the peers that a listing names. A listing
    /// that names none because it is malformed changes nothing.
    pub fn observe_listing(&mut self, listing: &str) -> (r: Result<(), ListingError>)
        ensures
            final(self)@.wf(),
            match listed_peers(listing.spec_bytes()) {
                Some(ids) => r is Ok && final(self)@ == old(self)@.after_snapshot(ids),
                None => r is Err && final(self)@ == old(self)@,
            },
    {
        proof {
            use_type_invariant(&*self);
        }
        match reachable_peers(listing) {
            Ok(ids) => {
                self.observe_reachable_peers(&ids);
                Ok(())
            },
            Err(e) => Err(e),
        }
    }
}

} // verus!
