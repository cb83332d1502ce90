//! The service on one connection: a question is read, answered, and the next
//! one is read, until a line is no question.

use crate::prime_time::protocol::{reply_to, respond, verdict, Reply, ReplyView, Request};
use crate::server::{Metrics, Snapshot};
use vstd::prelude::*;

verus! {

/// Where the service stands on a connection.
#[derive(Clone, Copy, Debug, PartialEq, Eq, Structural)]
pub enum Stage {
    /// The next line is awaited.
    Reading,
    /// An answer is being written.
    Answering,
    /// The answer to what was no question is being written.
    Refusing,
    /// The service is over.
    Done,
}

/// What happened on the connection.
#[derive(Debug)]
pub enum Event {
    /// A line of `len` bytes was read; `request` is what was made of it, and
    /// `None` where nothing could be.
    Line { len: usize, request: Option<Request> },
    /// The peer has closed its side.
    Closed,
    /// Reading failed.
    ReadFailed,
    /// The reply handed out was written and took `len` bytes.
    Written { len: usize },
    /// The reply handed out could not be written.
    WriteFailed,
}

/// What to do next on the connection.
#[derive(Debug, PartialEq, Eq)]
pub enum Action {
    /// Read a line, then tell `Line`, `Closed` or `ReadFailed`.
    Read,
    /// Write the reply on a line of its own, then tell `Written` or
    /// `WriteFailed`.
    Send(Reply),
    /// Come back from the handler, with an error or without.
    Finish { failed: bool },
}

/// An action with the words of its reply as characters.
pub enum ActionView {
    Read,
    Send(ReplyView),
    Finish { failed: bool },
}

impl Action {
    /// The action with the words of its reply as characters.
    pub open spec fn view(&self) -> ActionView {
        match self {
            Action::Read => ActionView::Read,
            Action::Send(reply) => ActionView::Send(reply@),
            Action::Finish { failed } => ActionView::Finish { failed: *failed },
        }
    }
}

/// Where the service stands after `event`.
pub open spec fn next_stage(stage: Stage, event: Event) -> Stage {
    match (stage, event) {
        (Stage::Reading, Event::Line { len, request }) => if verdict(request) is Some {
            Stage::Answering
        } else {
            Stage::Refusing
        },
        (Stage::Answering, Event::Written { .. }) => Stage::Reading,
        _ => Stage::Done,
    }
}

/// What `event` makes of the counters: lines are counted as they are read,
/// answers as they are written, and a failure to read is counted here.
pub open spec fn next_counters(stage: Stage, counters: Snapshot, event: Event) -> Snapshot {
    match (stage, event) {
        (Stage::Reading, Event::Line { len, request }) => counters.received(len as u64),
        (Stage::Reading, Event::ReadFailed) => counters.failed(),
        (Stage::Answering, Event::Written { len }) => counters.sent(len as u64),
        _ => counters,
    }
}

/// What the service does after `event`: a line is replied to, an answer is
/// followed by the next line, and the reply to what was no question is the
/// last. Only a failure to write is an error of the handler.
pub open spec fn next_action(stage: Stage, event: Event) -> ActionView {
    match (stage, event) {
        (Stage::Reading, Event::Line { len, request }) => ActionView::Send(reply_to(request)),
        (Stage::Answering, Event::Written { .. }) => ActionView::Read,
        (Stage::Answering, Event::WriteFailed) | (Stage::Refusing, Event::WriteFailed) => {
            ActionView::Finish { failed: true }
        },
        _ => ActionView::Finish { failed: false },
    }
}

/// The service on one connection.
#[derive(Debug)]
pub struct PrimeTime {
    pub stage: Stage,
}

impl PrimeTime {
    /// A service that awaits its first line.
    pub fn new() -> (service: Self)
        ensures
            service.stage == Stage::Reading,
    {
        PrimeTime { stage: Stage::Reading }
    }

    /// Takes in what happened on the connection, counts it, and says what to
    /// do next.
    pub fn step(&mut self, metrics: &mut Metrics, event: Event) -> (action: Action)
        ensures
            final(self).stage == next_stage(old(self).stage, event),
            final(metrics).counters() == next_counters(
                old(self).stage,
                old(metrics).counters(),
                event,
            ),
            final(metrics).start_time == old(metrics).start_time,
            action@ == next_action(old(self).stage, event),
    {
        let stage = self.stage;
        match (stage, event) {
            (Stage::Reading, Event::Line { len, request }) => {
                metrics.bytes_received(len as u64);
                let reply = respond(request);
                self.stage = match reply {
                    Reply::Answer(_) => Stage::Answering,
                    Reply::Malformed(_) => Stage::Refusing,
                };
                Action::Send(reply)
            },
            (Stage::Reading, Event::ReadFailed) => {
                metrics.error_occurred();
                self.stage = Stage::Done;
                Action::Finish { failed: false }
            },
            (Stage::Answering, Event::Written { len }) => {
                metrics.bytes_sent(len as u64);
                self.stage = Stage::Reading;
                Action::Read
            },
            (Stage::Answering, Event::WriteFailed) | (Stage::Refusing, Event::WriteFailed) => {
                self.stage = Stage::Done;
                Action::Finish { failed: true }
            },
            _ => {
                self.stage = Stage::Done;
                Action::Finish { failed: false }
            },
        }
    }
}

} // verus!
