//! Traffic counters shared by every connection of one service, and the
//! decisions of the two acceptors that feed them.

use crate::text::{decimal, push_decimal};
use std::time::Instant;
use vstd::prelude::*;
use vstd::string::*;

verus! {

/// `std::time::Instant`, a reading of the monotonic clock. Nothing is known
/// of what one holds.
#[verifier::external_type_specification]
#[verifier::external_body]
pub struct ExInstant(std::time::Instant);

/// `Instant::now` reads the monotonic clock; nothing is claimed of the value.
pub assume_specification[ std::time::Instant::now ]() -> std::time::Instant;

/// `Instant::elapsed` is the time since the instant was taken; nothing is
/// claimed of the value.
pub assume_specification[ std::time::Instant::elapsed ](
    start: &std::time::Instant,
) -> core::time::Duration;

/// A counter that has gone up by `n`, starting over at zero past `u64::MAX`.
pub open spec fn counter_up(value: u64, n: u64) -> u64 {
    if value + n > u64::MAX {
        (value + n - u64::MAX - 1) as u64
    } else {
        (value + n) as u64
    }
}

/// A counter that has gone down by one, continuing at `u64::MAX` below zero.
pub open spec fn counter_down(value: u64) -> u64 {
    if value == 0 {
        u64::MAX
    } else {
        (value - 1) as u64
    }
}

/// The five counters of a service at one moment.
#[derive(Clone, Copy, Debug, PartialEq, Eq, Structural)]
pub struct Snapshot {
    pub connections_total: u64,
    pub connections_active: u64,
    pub bytes_received: u64,
    pub bytes_sent: u64,
    pub errors_total: u64,
}

impl Snapshot {
    /// Every counter at zero.
    pub open spec fn zero() -> Snapshot {
        Snapshot {
            connections_total: 0,
            connections_active: 0,
            bytes_received: 0,
            bytes_sent: 0,
            errors_total: 0,
        }
    }

    /// The counters after one more connection was accepted.
    pub open spec fn opened(self) -> Snapshot {
        Snapshot {
            connections_total: counter_up(self.connections_total, 1),
            connections_active: counter_up(self.connections_active, 1),
            ..self
        }
    }

    /// The counters after one connection ended.
    pub open spec fn closed(self) -> Snapshot {
        Snapshot { connections_active: counter_down(self.connections_active), ..self }
    }

    /// The counters after `count` more bytes came in.
    pub open spec fn received(self, count: u64) -> Snapshot {
        Snapshot { bytes_received: counter_up(self.bytes_received, count), ..self }
    }

    /// The counters after `count` more bytes went out.
    pub open spec fn sent(self, count: u64) -> Snapshot {
        Snapshot { bytes_sent: counter_up(self.bytes_sent, count), ..self }
    }

    /// The counters after one more error.
    pub open spec fn failed(self) -> Snapshot {
        Snapshot { errors_total: counter_up(self.errors_total, 1), ..self }
    }
}

/// The counters of one service and the moment it started.
#[derive(Debug)]
pub struct Metrics {
    pub connections_total: u64,
    pub connections_active: u64,
    pub bytes_received: u64,
    pub bytes_sent: u64,
    pub errors_total: u64,
    pub start_time: Instant,
}

impl Metrics {
    /// The five counters as one value.
    pub open spec fn counters(&self) -> Snapshot {
        Snapshot {
            connections_total: self.connections_total,
            connections_active: self.connections_active,
            bytes_received: self.bytes_received,
            bytes_sent: self.bytes_sent,
            errors_total: self.errors_total,
        }
    }

    /// Counters at zero, started now.
    pub fn new() -> (metrics: Self)
        ensures
            metrics.counters() == Snapshot::zero(),
    {
        Self {
            connections_total: 0,
            connections_active: 0,
            bytes_received: 0,
            bytes_sent: 0,
            errors_total: 0,
            start_time: Instant::now(),
        }
    }

    /// Counts an accepted connection: one more in total, one more active.
    pub fn connection_opened(&mut self)
        ensures
            final(self).counters() == old(self).counters().opened(),
            final(self).start_time == old(self).start_time,
    {
        self.connections_total = self.connections_total.wrapping_add(1);
        self.connections_active = self.connections_active.wrapping_add(1);
    }

    /// Counts the end of a connection: one fewer active.
    pub fn connection_closed(&mut self)
        ensures
            final(self).counters() == old(self).counters().closed(),
            final(self).start_time == old(self).start_time,
    {
        self.connections_active = self.connections_active.wrapping_sub(1);
    }

    /// Counts `count` bytes that came in.
    pub fn bytes_received(&mut self, count: u64)
        ensures
            final(self).counters() == old(self).counters().received(count),
            final(self).start_time == old(self).start_time,
    {
        self.bytes_received = self.bytes_received.wrapping_add(count);
    }

    /// Counts `count` bytes that went out.
    pub fn bytes_sent(&mut self, count: u64)
        ensures
            final(self).counters() == old(self).counters().sent(count),
            final(self).start_time == old(self).start_time,
    {
        self.bytes_sent = self.bytes_sent.wrapping_add(count);
    }

    /// Counts one error.
    pub fn error_occurred(&mut self)
        ensures
            final(self).counters() == old(self).counters().failed(),
            final(self).start_time == old(self).start_time,
    {
        self.errors_total = self.errors_total.wrapping_add(1);
    }

    /// The time since the service started.
    pub fn uptime(&self) -> core::time::Duration {
        self.start_time.elapsed()
    }

    /// The counters as they stand.
    pub fn snapshot(&self) -> (snapshot: Snapshot)
        ensures
            snapshot == self.counters(),
    {
        Snapshot {
            connections_total: self.connections_total,
            connections_active: self.connections_active,
            bytes_received: self.bytes_received,
            bytes_sent: self.bytes_sent,
            errors_total: self.errors_total,
        }
    }
}

/// One line of a report: what is counted, a colon, and the count.
pub open spec fn stat_line(label: Seq<char>, value: u64) -> Seq<char> {
    label + ": "@ + decimal(value as nat)
}

/// The lines of a report of `counters` after `uptime`.
pub open spec fn report_lines(counters: Snapshot, uptime: Seq<char>) -> Seq<Seq<char>> {
    seq![
        "=== SERVER METRICS ==="@,
        "Uptime: "@ + uptime,
        stat_line("Total connections"@, counters.connections_total),
        stat_line("Active connections"@, counters.connections_active),
        stat_line("Bytes received"@, counters.bytes_received),
        stat_line("Bytes sent"@, counters.bytes_sent),
        stat_line("Total errors"@, counters.errors_total),
        "======================"@,
    ]
}

fn format_stat(label: &str, value: u64) -> (line: String)
    ensures
        line@ == stat_line(label@, value),
{
    let mut line = String::from_str(label);
    line.append(": ");
    push_decimal(&mut line, value);
    line
}

/// The lines in which the counters are reported, with the uptime in the
/// words of `uptime`.
pub fn format_stats(counters: Snapshot, uptime: &str) -> (lines: Vec<String>)
    ensures
        lines@.len() == 8,
        forall|i: int| 0 <= i < 8 ==> (#[trigger] lines@[i])@ == report_lines(counters, uptime@)[i],
{
    let mut uptime_line = String::from_str("Uptime: ");
    uptime_line.append(uptime);
    let mut lines: Vec<String> = Vec::new();
    lines.push(String::from_str("=== SERVER METRICS ==="));
    lines.push(uptime_line);
    lines.push(format_stat("Total connections", counters.connections_total));
    lines.push(format_stat("Active connections", counters.connections_active));
    lines.push(format_stat("Bytes received", counters.bytes_received));
    lines.push(format_stat("Bytes sent", counters.bytes_sent));
    lines.push(format_stat("Total errors", counters.errors_total));
    lines.push(String::from_str("======================"));
    lines
}

/// The seconds between two reports of the counters.
pub const REPORT_INTERVAL_SECS: u64 = 30;

/// The bytes that are read of one datagram; what a datagram holds beyond
/// them is lost.
pub const DATAGRAM_BUFFER_SIZE: usize = 1024;

/// What the acceptor of a stream service is told.
#[derive(Clone, Copy, Debug, PartialEq, Eq, Structural)]
pub enum StreamEvent {
    /// A connection was accepted.
    Accepted,
    /// Accepting failed.
    AcceptFailed,
    /// The handler of a connection has come back, with an error or without.
    Finished { failed: bool },
}

/// What the acceptor of a stream service does next.
#[derive(Clone, Copy, Debug, PartialEq, Eq, Structural)]
pub enum StreamAction {
    /// Run the handler on the connection, apart from the accepting, and tell
    /// `Finished` when it has come back.
    Spawn,
    /// Go on accepting.
    Continue,
    /// Give the service up.
    Stop,
}

/// What `event` makes of the counters of a stream service.
pub open spec fn stream_counters(counters: Snapshot, event: StreamEvent) -> Snapshot {
    match event {
        StreamEvent::Accepted => counters.opened(),
        StreamEvent::AcceptFailed => counters.failed(),
        StreamEvent::Finished { failed } => if failed {
            counters.closed().failed()
        } else {
            counters.closed()
        },
    }
}

/// What the acceptor of a stream service does after `event`.
pub open spec fn stream_action(event: StreamEvent) -> StreamAction {
    match event {
        StreamEvent::Accepted => StreamAction::Spawn,
        StreamEvent::AcceptFailed => StreamAction::Stop,
        StreamEvent::Finished { .. } => StreamAction::Continue,
    }
}

/// Counts what happened at the acceptor of a stream service and says how it
/// goes on: every connection is counted when it is accepted and when its
/// handler has come back, a handler's error is counted, and a failure to
/// accept is counted as an error and is the one thing that ends the service.
pub fn on_stream_event(metrics: &mut Metrics, event: StreamEvent) -> (action: StreamAction)
    ensures
        final(metrics).counters() == stream_counters(old(metrics).counters(), event),
        final(metrics).start_time == old(metrics).start_time,
        action == stream_action(event),
{
    match event {
        StreamEvent::Accepted => {
            metrics.connection_opened();
            StreamAction::Spawn
        },
        StreamEvent::AcceptFailed => {
            metrics.error_occurred();
            StreamAction::Stop
        },
        StreamEvent::Finished { failed } => {
            metrics.connection_closed();
            if failed {
                metrics.error_occurred();
            }
            StreamAction::Continue
        },
    }
}

/// What the acceptor of a datagram service is told.
#[derive(Debug)]
pub enum DatagramEvent {
    /// A datagram was received; these are the bytes that were read of it.
    Received(Vec<u8>),
    /// Receiving failed.
    ReceiveFailed,
    /// The handler of a datagram has come back with an error.
    HandlerFailed,
}

/// What the acceptor of a datagram service does next.
#[derive(Debug, PartialEq, Eq)]
pub enum DatagramAction {
    /// Run the handler on these bytes, apart from the receiving, and tell
    /// `HandlerFailed` if it comes back with an error.
    Spawn(Vec<u8>),
    /// Go on receiving.
    Continue,
}

/// What `event` makes of the counters of a datagram service.
pub open spec fn datagram_counters(counters: Snapshot, event: DatagramEvent) -> Snapshot {
    match event {
        DatagramEvent::Received(payload) => counters.received(payload@.len() as u64),
        DatagramEvent::ReceiveFailed => counters.failed(),
        DatagramEvent::HandlerFailed => counters.failed(),
    }
}

/// The bytes that the handler is run on after `event`, if it is run.
pub open spec fn datagram_payload(event: DatagramEvent) -> Option<Seq<u8>> {
    match event {
        DatagramEvent::Received(payload) => Some(payload@),
        _ => None,
    }
}

impl DatagramAction {
    /// The bytes that the handler is run on, if it is run.
    pub open spec fn view(&self) -> Option<Seq<u8>> {
        match self {
            DatagramAction::Spawn(payload) => Some(payload@),
            DatagramAction::Continue => None,
        }
    }
}

/// Counts what happened at the acceptor of a datagram service and says how
/// it goes on: the bytes of every datagram are counted and handed to a
/// handler, every failure is counted, and none ends the service.
pub fn on_datagram_event(metrics: &mut Metrics, event: DatagramEvent) -> (action: DatagramAction)
    ensures
        final(metrics).counters() == datagram_counters(old(metrics).counters(), event),
        final(metrics).start_time == old(metrics).start_time,
        action@ == datagram_payload(event),
{
    match event {
        DatagramEvent::Received(payload) => {
            metrics.bytes_received(payload.len() as u64);
            DatagramAction::Spawn(payload)
        },
        DatagramEvent::ReceiveFailed => {
            metrics.error_occurred();
            DatagramAction::Continue
        },
        DatagramEvent::HandlerFailed => {
            metrics.error_occurred();
            DatagramAction::Continue
        },
    }
}

/// The bytes of a datagram that was received into `buffer` and is `len`
/// bytes long, copied so that the buffer is free for the next one.
pub fn datagram_bytes(buffer: &[u8], len: usize) -> (payload: Vec<u8>)
    ensures
        payload@ == buffer@.take(if len <= buffer@.len() { len as int } else { buffer@.len() as int }),
{
    let end = if len <= buffer.len() { len } else { buffer.len() };
    vstd::slice::slice_to_vec(vstd::slice::slice_subrange(buffer, 0, end))
}

/// A connection that was accepted and whose handler has come back is counted
/// once in the total and is no longer among the active ones, whatever went
/// over it in between, as long as the counters do not start over.
pub proof fn lemma_connection_is_counted_once(counters: Snapshot, failed: bool)
    requires
        counters.connections_total < u64::MAX,
        counters.connections_active < u64::MAX,
    ensures
        stream_counters(
            stream_counters(counters, StreamEvent::Accepted),
            StreamEvent::Finished { failed },
        ).connections_total == counters.connections_total + 1,
        stream_counters(
            stream_counters(counters, StreamEvent::Accepted),
            StreamEvent::Finished { failed },
        ).connections_active == counters.connections_active,
{
}

} // verus!
