//! The service that sends back what it is sent.

use crate::server::{Metrics, Snapshot};
use vstd::prelude::*;

verus! {

/// Where an echo stands.
#[derive(Clone, Copy, Debug, PartialEq, Eq, Structural)]
pub enum EchoState {
    /// The next bytes are awaited.
    Reading,
    /// Bytes were read and are being written back; `len` is their number.
    Writing { len: u64 },
    /// The echo is over.
    Done,
}

/// What happened on the connection.
#[derive(Debug)]
pub enum EchoEvent {
    /// Bytes were read.
    Received(Vec<u8>),
    /// The peer has closed its side.
    Closed,
    /// Reading failed.
    ReadFailed,
    /// The bytes handed out were written.
    Written,
    /// The bytes handed out could not be written.
    WriteFailed,
}

/// What to do next on the connection.
#[derive(Debug, PartialEq, Eq)]
pub enum EchoAction {
    /// Read, then tell `Received`, `Closed` or `ReadFailed`.
    Read,
    /// Write these bytes, then tell `Written` or `WriteFailed`.
    Write(Vec<u8>),
    /// Come back from the handler, with an error or without.
    Finish { failed: bool },
}

/// An action with its bytes as a sequence.
pub enum EchoActionView {
    Read,
    Write(Seq<u8>),
    Finish { failed: bool },
}

impl EchoAction {
    /// The action with its bytes as a sequence.
    pub open spec fn view(&self) -> EchoActionView {
        match self {
            EchoAction::Read => EchoActionView::Read,
            EchoAction::Write(bytes) => EchoActionView::Write(bytes@),
            EchoAction::Finish { failed } => EchoActionView::Finish { failed: *failed },
        }
    }
}

/// Where the echo stands after `event`.
pub open spec fn echo_state(state: EchoState, event: EchoEvent) -> EchoState {
    match (state, event) {
        (EchoState::Reading, EchoEvent::Received(bytes)) => EchoState::Writing {
            len: bytes@.len() as u64,
        },
        (EchoState::Writing { .. }, EchoEvent::Written) => EchoState::Reading,
        _ => EchoState::Done,
    }
}

/// What `event` makes of the counters: bytes are counted when they are read
/// and when they are written back, and a failure to read is counted here.
pub open spec fn echo_counters(state: EchoState, counters: Snapshot, event: EchoEvent) -> Snapshot {
    match (state, event) {
        (EchoState::Reading, EchoEvent::Received(bytes)) => counters.received(
            bytes@.len() as u64,
        ),
        (EchoState::Reading, EchoEvent::ReadFailed) => counters.failed(),
        (EchoState::Writing { len }, EchoEvent::Written) => counters.sent(len),
        _ => counters,
    }
}

/// What the echo does after `event`: it writes back what was read, reads on
/// after writing, and comes back when the peer is gone. Only a failure to
/// write is an error of the handler.
pub open spec fn echo_action(state: EchoState, event: EchoEvent) -> EchoActionView {
    match (state, event) {
        (EchoState::Reading, EchoEvent::Received(bytes)) => EchoActionView::Write(bytes@),
        (EchoState::Writing { .. }, EchoEvent::Written) => EchoActionView::Read,
        (EchoState::Writing { .. }, EchoEvent::WriteFailed) => EchoActionView::Finish {
            failed: true,
        },
        _ => EchoActionView::Finish { failed: false },
    }
}

/// The echo on one connection.
#[derive(Debug)]
pub struct Echo {
    pub state: EchoState,
}

impl Echo {
    /// An echo that awaits its first bytes.
    pub fn new() -> (echo: Self)
        ensures
            echo.state == EchoState::Reading,
    {
        Echo { state: EchoState::Reading }
    }

    /// Takes in what happened on the connection, counts it, and says what to
    /// do next.
    pub fn step(&mut self, metrics: &mut Metrics, event: EchoEvent) -> (action: EchoAction)
        ensures
            final(self).state == echo_state(old(self).state, event),
            final(metrics).counters() == echo_counters(
                old(self).state,
                old(metrics).counters(),
                event,
            ),
            final(metrics).start_time == old(metrics).start_time,
            action@ == echo_action(old(self).state, event),
    {
        let state = self.state;
        match (state, event) {
            (EchoState::Reading, EchoEvent::Received(bytes)) => {
                let len = bytes.len() as u64;
                metrics.bytes_received(len);
                self.state = EchoState::Writing { len };
                EchoAction::Write(bytes)
            },
            (EchoState::Reading, EchoEvent::ReadFailed) => {
                metrics.error_occurred();
                self.state = EchoState::Done;
                EchoAction::Finish { failed: false }
            },
            (EchoState::Writing { len }, EchoEvent::Written) => {
                metrics.bytes_sent(len);
                self.state = EchoState::Reading;
                EchoAction::Read
            },
            (EchoState::Writing { .. }, EchoEvent::WriteFailed) => {
                self.state = EchoState::Done;
                EchoAction::Finish { failed: true }
            },
            _ => {
                self.state = EchoState::Done;
                EchoAction::Finish { failed: false }
            },
        }
    }
}

/// What was read is what is written back, and it is counted both ways: after
/// bytes were read and written back, as many more were received as were sent.
pub proof fn lemma_echo_counts_both_ways(counters: Snapshot, bytes: Vec<u8>)
    ensures
        echo_action(EchoState::Reading, EchoEvent::Received(bytes)) == EchoActionView::Write(
            bytes@,
        ),
        echo_counters(
            echo_state(EchoState::Reading, EchoEvent::Received(bytes)),
            echo_counters(EchoState::Reading, counters, EchoEvent::Received(bytes)),
            EchoEvent::Written,
        ) == counters.received(bytes@.len() as u64).sent(bytes@.len() as u64),
{
}

} // verus!
