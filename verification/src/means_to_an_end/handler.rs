//! What the service does with one message.

use crate::means_to_an_end::protocol::{big_endian, parsed, serialize_mean, signed, Message};
use crate::means_to_an_end::session::{mean, Session};
use crate::server::{Metrics, Snapshot};
use vstd::prelude::*;
use vstd::slice::slice_to_vec;
use vstd::string::StringSliceAdditionalSpecFns;

verus! {

/// What is sent before the connection is closed on a message that is none.
pub const UNRECOGNIZED: &'static str = "unrecognized request, disconnecting";

/// What came of one message.
#[derive(Clone, Copy, Debug, PartialEq, Eq)]
pub enum Handled {
    /// A price was taken down; nothing is sent back.
    Stored,
    /// A mean was asked for; these four bytes are sent back.
    Mean([u8; 4]),
    /// The message was none; `UNRECOGNIZED` is sent and the connection closed.
    Unrecognized,
}

/// The prices after the message that `bytes` spell.
pub open spec fn recorded(data: Seq<(i32, i32)>, bytes: Seq<u8>) -> Seq<(i32, i32)> {
    match parsed(bytes) {
        Some(Message::Insert { timestamp, price }) => data.push((timestamp, price)),
        _ => data,
    }
}

/// The mean that is sent back for the message that `bytes` spell, if one is.
pub open spec fn answered(data: Seq<(i32, i32)>, bytes: Seq<u8>) -> Option<int> {
    match parsed(bytes) {
        Some(Message::Query { mintime, maxtime }) => Some(mean(data, mintime, maxtime)),
        _ => None,
    }
}

impl Handled {
    /// The mean that is sent back, if one is.
    pub open spec fn view(&self) -> Option<int> {
        match self {
            Handled::Mean(bytes) => Some(signed(big_endian(bytes@))),
            _ => None,
        }
    }
}

/// Reads the message in `buf` and does what it asks for.
pub fn handle(session: &mut Session, buf: &[u8]) -> (outcome: Handled)
    ensures
        final(session)@ == recorded(old(session)@, buf@),
        outcome@ == answered(old(session)@, buf@),
        outcome is Stored <==> parsed(buf@) matches Some(Message::Insert { .. }),
        outcome is Unrecognized <==> parsed(buf@) is None,
{
    match Message::parse(buf) {
        Some(Message::Insert { timestamp, price }) => {
            session.insert(timestamp, price);
            Handled::Stored
        },
        Some(Message::Query { mintime, maxtime }) => {
            Handled::Mean(serialize_mean(session.query(mintime, maxtime)))
        },
        None => Handled::Unrecognized,
    }
}

/// Where the service stands on a connection.
#[derive(Clone, Copy, Debug, PartialEq, Eq, Structural)]
pub enum Stage {
    /// The next message is awaited.
    Reading,
    /// A mean is being written.
    Answering,
    /// The answer to what was no message is being written.
    Refusing,
    /// The service is over.
    Done,
}

/// What happened on the connection.
#[derive(Debug)]
pub enum Event {
    /// The bytes of one message were read.
    Message(Vec<u8>),
    /// The peer has closed its side.
    Closed,
    /// Reading failed, or the peer went in the middle of a message.
    ReadFailed,
    /// The bytes handed out were written.
    Written,
    /// The bytes handed out could not be written.
    WriteFailed,
}

/// What to do next on the connection.
#[derive(Debug, PartialEq, Eq)]
pub enum Action {
    /// Read the nine bytes of a message, then tell `Message`, `Closed` or
    /// `ReadFailed`.
    Read,
    /// Write these bytes, then tell `Written` or `WriteFailed`.
    Write(Vec<u8>),
    /// Come back from the handler, with an error or without.
    Finish { failed: bool },
}

/// An action with its bytes as a sequence.
pub enum ActionView {
    Read,
    Write(Seq<u8>),
    Finish { failed: bool },
}

impl Action {
    /// The action with its bytes as a sequence.
    pub open spec fn view(&self) -> ActionView {
        match self {
            Action::Read => ActionView::Read,
            Action::Write(bytes) => ActionView::Write(bytes@),
            Action::Finish { failed } => ActionView::Finish { failed: *failed },
        }
    }
}

/// Where the service stands after `event`.
pub open spec fn next_stage(stage: Stage, event: Event) -> Stage {
    match (stage, event) {
        (Stage::Reading, Event::Message(bytes)) => match parsed(bytes@) {
            Some(Message::Insert { .. }) => Stage::Reading,
            Some(Message::Query { .. }) => Stage::Answering,
            None => Stage::Refusing,
        },
        (Stage::Answering, Event::Written) => Stage::Reading,
        _ => Stage::Done,
    }
}

/// What `event` makes of the counters: messages are counted as they are
/// read, and a failure to read is counted here.
pub open spec fn next_counters(stage: Stage, counters: Snapshot, event: Event) -> Snapshot {
    match (stage, event) {
        (Stage::Reading, Event::Message(bytes)) => counters.received(bytes@.len() as u64),
        (Stage::Reading, Event::ReadFailed) => counters.failed(),
        _ => counters,
    }
}

/// The prices after `event`.
pub open spec fn next_prices(stage: Stage, data: Seq<(i32, i32)>, event: Event) -> Seq<(i32, i32)> {
    match (stage, event) {
        (Stage::Reading, Event::Message(bytes)) => recorded(data, bytes@),
        _ => data,
    }
}

/// The action is the one that follows `event`: a price is followed by the
/// next message, a query by its mean and then by the next message, and what
/// is no message by the words that say so, which are the last. Only a
/// failure to write is an error of the handler.
pub open spec fn follows(
    action: ActionView,
    stage: Stage,
    data: Seq<(i32, i32)>,
    event: Event,
) -> bool {
    match (stage, event) {
        (Stage::Reading, Event::Message(bytes)) => match parsed(bytes@) {
            Some(Message::Insert { .. }) => action == ActionView::Read,
            Some(Message::Query { mintime, maxtime }) => action matches ActionView::Write(mean_bytes)
                && mean_bytes.len() == 4 && signed(big_endian(mean_bytes)) == mean(
                data,
                mintime,
                maxtime,
            ),
            None => action == ActionView::Write(UNRECOGNIZED.spec_bytes()),
        },
        (Stage::Answering, Event::Written) => action == ActionView::Read,
        (Stage::Answering, Event::WriteFailed) | (Stage::Refusing, Event::WriteFailed) => action
            == (ActionView::Finish { failed: true }),
        _ => action == (ActionView::Finish { failed: false }),
    }
}

/// The service on one connection, with the prices that came over it.
pub struct PriceFeed {
    pub stage: Stage,
    pub session: Session,
}

impl PriceFeed {
    /// A service without prices that awaits its first message.
    pub fn new() -> (feed: Self)
        ensures
            feed.stage == Stage::Reading,
            feed.session@ == Seq::<(i32, i32)>::empty(),
    {
        PriceFeed { stage: Stage::Reading, session: Session::new() }
    }

    /// Takes in what happened on the connection, counts it, and says what to
    /// do next.
    pub fn step(&mut self, metrics: &mut Metrics, event: Event) -> (action: Action)
        ensures
            final(self).stage == next_stage(old(self).stage, event),
            final(self).session@ == next_prices(old(self).stage, old(self).session@, event),
            final(metrics).counters() == next_counters(
                old(self).stage,
                old(metrics).counters(),
                event,
            ),
            final(metrics).start_time == old(metrics).start_time,
            follows(action@, old(self).stage, old(self).session@, event),
    {
        let stage = self.stage;
        match (stage, event) {
            (Stage::Reading, Event::Message(bytes)) => {
                metrics.bytes_received(bytes.len() as u64);
                match handle(&mut self.session, bytes.as_slice()) {
                    Handled::Stored => Action::Read,
                    Handled::Mean(mean_bytes) => {
                        self.stage = Stage::Answering;
                        Action::Write(slice_to_vec(mean_bytes.as_slice()))
                    },
                    Handled::Unrecognized => {
                        self.stage = Stage::Refusing;
                        Action::Write(slice_to_vec(UNRECOGNIZED.as_bytes()))
                    },
                }
            },
            (Stage::Reading, Event::ReadFailed) => {
                metrics.error_occurred();
                self.stage = Stage::Done;
                Action::Finish { failed: false }
            },
            (Stage::Answering, Event::Written) => {
                self.stage = Stage::Reading;
                Action::Read
            },
            (Stage::Answering, Event::WriteFailed) | (Stage::Refusing, Event::WriteFailed) => {
                self.stage = Stage::Done;
                Action::Finish { failed: true }
            },
            _ => {
                self.stage = Stage::Done;
                Action::Finish { failed: false }
            },
        }
    }
}

} // verus!
