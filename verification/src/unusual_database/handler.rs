//! What the store does with one packet.

use crate::unusual_database::db::{is_version_key, version_key, KVStore};
use crate::unusual_database::protocol::{
    format_response, parse_request, parsed, response, ProtocolError, Request, RequestView,
};
use crate::server::{Metrics, Snapshot};
use vstd::prelude::*;

verus! {

/// What came of one packet.
#[derive(Debug, PartialEq, Eq)]
pub enum Handled {
    /// The value was stored; nothing is sent back.
    Stored,
    /// The packet would have written the version and was passed over.
    Ignored,
    /// The packet asked for a key; this is what to send back.
    Reply(Vec<u8>),
    /// The packet was not read; it counts as an error and nothing is sent.
    Rejected(ProtocolError),
}

/// That outcome with its bytes as a sequence.
pub enum HandledView {
    Stored,
    Ignored,
    Reply(Seq<u8>),
    Rejected(ProtocolError),
}

impl Handled {
    /// The outcome with its bytes as a sequence.
    pub open spec fn view(&self) -> HandledView {
        match self {
            Handled::Stored => HandledView::Stored,
            Handled::Ignored => HandledView::Ignored,
            Handled::Reply(packet) => HandledView::Reply(packet@),
            Handled::Rejected(error) => HandledView::Rejected(*error),
        }
    }
}

/// The value that is sent back for `key`: what the store holds under it, or
/// nothing where it holds nothing.
pub open spec fn retrieved(store: Map<Seq<u8>, Seq<u8>>, key: Seq<u8>) -> Seq<u8> {
    if store.contains_key(key) {
        store[key]
    } else {
        Seq::empty()
    }
}

/// What `packet` does to `store`.
pub open spec fn stored(store: Map<Seq<u8>, Seq<u8>>, packet: Seq<u8>) -> Map<Seq<u8>, Seq<u8>> {
    match parsed(packet) {
        Ok(RequestView::Insert { key, value }) if key != version_key() => store.insert(key, value),
        _ => store,
    }
}

/// What comes of `packet` at `store`.
pub open spec fn handled(store: Map<Seq<u8>, Seq<u8>>, packet: Seq<u8>) -> HandledView {
    match parsed(packet) {
        Ok(RequestView::Insert { key, value }) => if key == version_key() {
            HandledView::Ignored
        } else {
            HandledView::Stored
        },
        Ok(RequestView::Retrieve { key }) => HandledView::Reply(
            response(key, retrieved(store, key)),
        ),
        Err(error) => HandledView::Rejected(error),
    }
}

/// What `packet` makes of the counters: a packet that is not read is an
/// error.
pub open spec fn counted(counters: Snapshot, packet: Seq<u8>) -> Snapshot {
    if parsed(packet) is Err {
        counters.failed()
    } else {
        counters
    }
}

/// Reads `packet` and does what it asks for.
pub fn handle(store: &mut KVStore, metrics: &mut Metrics, packet: &[u8]) -> (outcome: Handled)
    ensures
        final(store)@ == stored(old(store)@, packet@),
        final(metrics).counters() == counted(old(metrics).counters(), packet@),
        final(metrics).start_time == old(metrics).start_time,
        outcome@ == handled(old(store)@, packet@),
{
    match parse_request(packet) {
        Ok(Request::Insert { key, value }) => {
            if is_version_key(key.as_slice()) {
                Handled::Ignored
            } else {
                let _ = store.insert(key.as_slice(), value.as_slice());
                Handled::Stored
            }
        },
        Ok(Request::Retrieve { key }) => {
            let reply = match store.get(key.as_slice()) {
                Some(value) => format_response(key.as_slice(), value.as_slice()),
                None => {
                    let nothing: Vec<u8> = Vec::new();
                    format_response(key.as_slice(), nothing.as_slice())
                },
            };
            Handled::Reply(reply)
        },
        Err(error) => {
            metrics.error_occurred();
            Handled::Rejected(error)
        },
    }
}

/// The version cannot be changed: whatever packets come, the store holds
/// under `version` what it held.
pub proof fn lemma_version_is_kept(store: Map<Seq<u8>, Seq<u8>>, packet: Seq<u8>)
    ensures
        stored(store, packet).contains_key(version_key()) == store.contains_key(version_key()),
        stored(store, packet)[version_key()] == store[version_key()],
{
}

} // verus!
