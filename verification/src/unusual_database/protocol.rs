//! The packets of the store.

use vstd::prelude::*;
use vstd::slice::{slice_subrange, slice_to_vec};

verus! {

/// The longest packet that is read.
pub const MAX_PACKET_SIZE: usize = 1000;

/// The byte between a key and its value.
pub const EQUALS: u8 = 0x3D;

/// What a packet asks for.
#[derive(Debug, PartialEq, Eq)]
pub enum Request {
    Insert { key: Vec<u8>, value: Vec<u8> },
    Retrieve { key: Vec<u8> },
}

/// Why a packet is not read.
#[derive(Clone, Copy, Debug, PartialEq, Eq, Structural)]
pub enum ProtocolError {
    /// The packet is longer than `MAX_PACKET_SIZE`.
    TooLong,
    /// The key holds an equals sign. Never given: a key ends at the first one.
    InvalidKey,
}

/// A request with its bytes as sequences.
pub enum RequestView {
    Insert { key: Seq<u8>, value: Seq<u8> },
    Retrieve { key: Seq<u8> },
}

impl Request {
    /// The request with its bytes as sequences.
    pub open spec fn view(&self) -> RequestView {
        match self {
            Request::Insert { key, value } => RequestView::Insert { key: key@, value: value@ },
            Request::Retrieve { key } => RequestView::Retrieve { key: key@ },
        }
    }
}

/// The first equals sign of `packet` stands at `at`.
pub open spec fn is_split(packet: Seq<u8>, at: int) -> bool {
    &&& 0 <= at < packet.len()
    &&& packet[at] == EQUALS
    &&& forall|j: int| 0 <= j < at ==> packet[j] != EQUALS
}

/// What `packet` asks for: with an equals sign, to store what follows the
/// first one under what precedes it; without one, to retrieve the packet as
/// a key. A packet of more than 1000 bytes asks for nothing.
pub open spec fn parsed(packet: Seq<u8>) -> Result<RequestView, ProtocolError> {
    if packet.len() > MAX_PACKET_SIZE {
        Err(ProtocolError::TooLong)
    } else if exists|at: int| is_split(packet, at) {
        let at = choose|at: int| is_split(packet, at);
        Ok(RequestView::Insert { key: packet.take(at), value: packet.skip(at + 1) })
    } else {
        Ok(RequestView::Retrieve { key: packet })
    }
}

/// `key`, an equals sign, `value`.
pub open spec fn response(key: Seq<u8>, value: Seq<u8>) -> Seq<u8> {
    key + seq![EQUALS] + value
}

/// The view of a parsed packet, or why it was not parsed.
pub open spec fn outcome(result: Result<Request, ProtocolError>) -> Result<
    RequestView,
    ProtocolError,
> {
    match result {
        Ok(request) => Ok(request@),
        Err(error) => Err(error),
    }
}

/// Reads one packet.
pub fn parse_request(packet: &[u8]) -> (result: Result<Request, ProtocolError>)
    ensures
        outcome(result) == parsed(packet@),
{
    if packet.len() > MAX_PACKET_SIZE {
        return Err(ProtocolError::TooLong);
    }
    let mut i: usize = 0;
    while i < packet.len()
        invariant
            i <= packet.len() <= MAX_PACKET_SIZE,
            forall|j: int| 0 <= j < i ==> packet@[j] != EQUALS,
        decreases packet.len() - i,
    {
        if packet[i] == EQUALS {
            assert(is_split(packet@, i as int));
            let key = slice_to_vec(slice_subrange(packet, 0, i));
            let value = slice_to_vec(slice_subrange(packet, i + 1, packet.len()));
            proof {
                let chosen = choose|at: int| is_split(packet@, at);
                assert(chosen == i);
                assert(key@ == packet@.take(i as int));
                assert(value@ == packet@.skip(i + 1));
            }
            return Ok(Request::Insert { key, value });
        }
        i += 1;
    }
    assert(packet@.take(packet.len() as int) == packet@);
    Ok(Request::Retrieve { key: slice_to_vec(packet) })
}

/// The packet that answers a retrieval of `key` with `value`.
pub fn format_response(key: &[u8], value: &[u8]) -> (packet: Vec<u8>)
    ensures
        packet@ == response(key@, value@),
{
    let mut packet: Vec<u8> = Vec::new();
    let mut i: usize = 0;
    while i < key.len()
        invariant
            i <= key.len(),
            packet@ == key@.take(i as int),
        decreases key.len() - i,
    {
        packet.push(key[i]);
        i += 1;
    }
    packet.push(EQUALS);
    let mut j: usize = 0;
    while j < value.len()
        invariant
            j <= value.len(),
            packet@ == key@ + seq![EQUALS] + value@.take(j as int),
        decreases value.len() - j,
    {
        packet.push(value[j]);
        j += 1;
    }
    assert(value@.take(value.len() as int) == value@);
    packet
}

/// A response is read back as the storing of its value under its key,
/// as long as the key holds no equals sign and the whole is not too long.
pub proof fn lemma_response_is_parsed_back(key: Seq<u8>, value: Seq<u8>)
    requires
        !key.contains(EQUALS),
        key.len() + 1 + value.len() <= MAX_PACKET_SIZE,
    ensures
        parsed(response(key, value)) == Ok::<RequestView, ProtocolError>(
            RequestView::Insert { key, value },
        ),
{
    let packet = response(key, value);
    let at = key.len() as int;
    assert(is_split(packet, at)) by {
        assert forall|j: int| 0 <= j < at implies packet[j] != EQUALS by {
            assert(key.contains(key[j]));
        }
    }
    let chosen = choose|at: int| is_split(packet, at);
    assert(chosen == at);
    assert(packet.take(at) == key);
    assert(packet.skip(at + 1) == value);
}

} // verus!
