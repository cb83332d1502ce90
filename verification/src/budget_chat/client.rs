//! The session of one connection to the room, as a machine that is told what
//! happened on the connection and answers with what to do next.

use crate::budget_chat::chat::{
    distinct, joined, left, lemma_left_member_is_gone, lemma_others_of_absent,
    lemma_others_of_member, names, others, place, present, ChatRoom, Fanout, Member,
};
use crate::budget_chat::framing::{lemma_lines_of_pieces, lines, remainder, LineBuffer};
use crate::budget_chat::protocol::{
    chat_message, format_chat_message, format_join_message, format_leave_message,
    format_user_list, is_ascii_alphanumeric, is_valid_name, join_message, leave_message,
    user_list_message, valid_name, REJECTION, WELCOME,
};
use crate::server::{Metrics, Snapshot};
use crate::text::{byte_len, is_white_space, strip_newline, without_newline};
use tokio::sync::mpsc::{unbounded_channel, UnboundedReceiver, UnboundedSender};
use vstd::prelude::*;
use vstd::string::*;

verus! {

/// Where a session stands, as the room's peers see it.
#[derive(Clone, Copy, Debug, PartialEq, Eq, Structural)]
pub enum SessionState {
    Connected,
    AwaitingName,
    Active,
    Terminated,
}

/// Where a session stands, down to the line it has handed out for writing.
#[derive(Clone, Copy, Debug, PartialEq, Eq, Structural)]
pub enum Phase {
    /// The connection is open and nothing was sent.
    Connected,
    /// The welcome is being written.
    Greeting,
    /// The name is awaited.
    AwaitingName,
    /// The name was turned down and the rejection is being written.
    Rejecting,
    /// The name is in the room and the list of the others is being written.
    Listing,
    /// The member talks and listens.
    Active,
    /// A message of `len` bytes from the member's queue is being written.
    Delivering { len: u64 },
    /// The session is over.
    Terminated,
}

impl Phase {
    /// The state that this phase belongs to.
    pub open spec fn state(self) -> SessionState {
        match self {
            Phase::Connected | Phase::Greeting => SessionState::Connected,
            Phase::AwaitingName | Phase::Rejecting => SessionState::AwaitingName,
            Phase::Listing | Phase::Active | Phase::Delivering { .. } => SessionState::Active,
            Phase::Terminated => SessionState::Terminated,
        }
    }

    /// The member's name is in the room.
    pub open spec fn registered(self) -> bool {
        self.state() == SessionState::Active
    }

    /// The session may still come to register a name.
    pub open spec fn may_register(self) -> bool {
        self == Phase::Connected || self == Phase::Greeting || self == Phase::AwaitingName
    }
}

/// What happened on the connection.
#[derive(Debug)]
pub enum Event {
    /// The connection was accepted.
    Accepted,
    /// The line handed out was written.
    Written,
    /// The line handed out could not be written.
    WriteFailed,
    /// A line was read, its newline included.
    Line(String),
    /// Bytes were read.
    Received(Vec<u8>),
    /// The peer has closed its side.
    Closed,
    /// Reading failed.
    ReadFailed,
    /// A message has come out of the member's queue.
    Queued(String),
}

/// What to do next on the connection.
#[derive(Debug, PartialEq, Eq)]
pub enum Action {
    /// Write the line, then tell `Written` or `WriteFailed`.
    Write(String),
    /// Read one line, then tell `Line`, `Closed` or `ReadFailed`.
    ReadLine,
    /// Wait for bytes from the peer or for a message from the queue, then
    /// tell `Received`, `Closed`, `ReadFailed` or `Queued`.
    Wait,
    /// Close the connection.
    Close,
}

/// An action with its line as characters.
pub enum ActionView {
    Write(Seq<char>),
    ReadLine,
    Wait,
    Close,
}

impl Action {
    /// The action with its line as characters.
    pub open spec fn view(&self) -> ActionView {
        match self {
            Action::Write(line) => ActionView::Write(line@),
            Action::ReadLine => ActionView::ReadLine,
            Action::Wait => ActionView::Wait,
            Action::Close => ActionView::Close,
        }
    }
}

/// One line that was handed to the other members, and how far it went.
#[derive(Debug, PartialEq, Eq)]
pub struct Announcement {
    /// The line.
    pub line: String,
    /// To how many members the room handed it, and how many queues took it.
    pub fanout: Fanout,
}

/// The answer to one event.
#[derive(Debug)]
pub struct Step {
    /// What to do next on the connection.
    pub action: Action,
    /// What the room handed to the other members, in the order in which it
    /// was handed out.
    pub announced: Vec<Announcement>,
}

/// A line for the other members, and the number of members it is handed to.
pub struct Told {
    pub line: Seq<char>,
    pub recipients: nat,
}

/// What was announced, as contracts see it.
pub open spec fn told(announced: Seq<Announcement>) -> Seq<Told> {
    Seq::new(
        announced.len(),
        |i: int| Told { line: announced[i].line@, recipients: announced[i].fanout.recipients as nat },
    )
}

/// No line was taken by more queues than it was handed to.
pub open spec fn counted(announced: Seq<Announcement>) -> bool {
    forall|i: int|
        0 <= i < announced.len() ==> (#[trigger] announced[i]).fanout.delivered
            <= announced[i].fanout.recipients
}

/// `line` told to everyone in `room` but `name`.
pub open spec fn told_to_others(line: Seq<char>, room: Seq<Member>, name: Seq<char>) -> Told {
    Told { line, recipients: others(room, Some(name)).len() }
}

/// A session as contracts see it.
pub struct SessionView {
    pub phase: Phase,
    /// The member's name, once it is in the room.
    pub name: Seq<char>,
    /// The bytes of a line that has begun.
    pub buffered: Seq<u8>,
    /// The sending side of the member's queue, until the room has it.
    pub tx: Option<UnboundedSender<String>>,
}

/// Everything that one event leaves behind.
pub struct Outcome {
    pub session: SessionView,
    pub room: Seq<Member>,
    pub counters: Snapshot,
    pub action: ActionView,
    pub announced: Seq<Told>,
}

/// The session goes on to `phase` with `action`; nothing else changes.
pub open spec fn proceed(
    session: SessionView,
    room: Seq<Member>,
    counters: Snapshot,
    phase: Phase,
    action: ActionView,
) -> Outcome {
    Outcome {
        session: SessionView { phase, ..session },
        room,
        counters,
        action,
        announced: Seq::empty(),
    }
}

/// The session ends. A member leaves the room, and those who stay are told.
pub open spec fn end(session: SessionView, room: Seq<Member>, counters: Snapshot) -> Outcome {
    if session.phase.registered() {
        Outcome {
            session: SessionView { phase: Phase::Terminated, ..session },
            room: left(room, session.name),
            counters,
            action: ActionView::Close,
            announced: seq![
                told_to_others(
                    leave_message(session.name),
                    left(room, session.name),
                    session.name,
                ),
            ],
        }
    } else {
        proceed(session, room, counters, Phase::Terminated, ActionView::Close)
    }
}

/// The answer to a line read as the name. The name is the line without the
/// newline that ends it, and nothing else is taken off. A valid name goes
/// into the room, the others hear of it, and the newcomer is sent the list of
/// the others; any other name is turned down.
pub open spec fn handshake(
    session: SessionView,
    room: Seq<Member>,
    counters: Snapshot,
    line: Seq<char>,
) -> Outcome {
    let name = without_newline(line);
    if valid_name(name) {
        let room = joined(room, name, session.tx->0);
        Outcome {
            session: SessionView { phase: Phase::Listing, name, tx: None, ..session },
            room,
            counters,
            action: ActionView::Write(user_list_message(names(others(room, Some(name))))),
            announced: seq![told_to_others(join_message(name), room, name)],
        }
    } else {
        proceed(session, room, counters, Phase::Rejecting, ActionView::Write(REJECTION@))
    }
}

/// The answer to bytes from a member: each line that they complete is passed
/// on to the others, and what is left over is kept.
pub open spec fn talk(
    session: SessionView,
    room: Seq<Member>,
    counters: Snapshot,
    data: Seq<u8>,
) -> Outcome {
    let whole = lines(session.buffered + data);
    Outcome {
        session: SessionView { buffered: remainder(session.buffered + data), ..session },
        room,
        counters,
        action: ActionView::Wait,
        announced: Seq::new(
            whole.len(),
            |i: int| told_to_others(chat_message(session.name, whole[i]), room, session.name),
        ),
    }
}

/// What `event` makes of a session, of the room and of the counters. A
/// session that is over stays over; a read or a write that failed is counted
/// as an error and ends the session; and so does, uncounted, the peer's
/// closing its side and any event that the session did not await.
pub open spec fn transition(
    session: SessionView,
    room: Seq<Member>,
    counters: Snapshot,
    event: Event,
) -> Outcome {
    match (session.phase, event) {
        (Phase::Terminated, _) => proceed(
            session,
            room,
            counters,
            Phase::Terminated,
            ActionView::Close,
        ),
        (_, Event::ReadFailed) | (_, Event::WriteFailed) => end(session, room, counters.failed()),
        (Phase::Connected, Event::Accepted) => proceed(
            session,
            room,
            counters,
            Phase::Greeting,
            ActionView::Write(WELCOME@),
        ),
        (Phase::Greeting, Event::Written) => proceed(
            session,
            room,
            counters.sent(byte_len(WELCOME@) as u64),
            Phase::AwaitingName,
            ActionView::ReadLine,
        ),
        (Phase::AwaitingName, Event::Line(line)) => handshake(
            session,
            room,
            counters.received(byte_len(line@) as u64),
            line@,
        ),
        (Phase::Listing, Event::Written) => proceed(
            session,
            room,
            counters,
            Phase::Active,
            ActionView::Wait,
        ),
        (Phase::Active, Event::Received(data)) => talk(
            session,
            room,
            counters.received(data@.len() as u64),
            data@,
        ),
        (Phase::Active, Event::Queued(message)) => proceed(
            session,
            room,
            counters,
            Phase::Delivering { len: byte_len(message@) as u64 },
            ActionView::Write(message@),
        ),
        (Phase::Delivering { len }, Event::Written) => proceed(
            session,
            room,
            counters.sent(len),
            Phase::Active,
            ActionView::Wait,
        ),
        _ => end(session, room, counters),
    }
}

/// `name` is in `room` once, and is reached on `tx`.
pub open spec fn registered_once(
    room: Seq<Member>,
    name: Seq<char>,
    tx: UnboundedSender<String>,
) -> bool {
    exists|at: int|
        {
            &&& 0 <= at < room.len()
            &&& #[trigger] room[at] == (Member { name, tx })
            &&& forall|other: int|
                0 <= other < room.len() && other != at ==> (#[trigger] room[other]).name != name
        }
}

/// Every valid name is taken on: the session that awaits a name and reads a
/// line that holds one goes on as a member, and the name is in the room once,
/// with the session's queue behind it. The others are told of the newcomer,
/// who is not among them, and the newcomer is sent the list of the others.
pub proof fn lemma_valid_name_is_registered_once(
    session: SessionView,
    room: Seq<Member>,
    counters: Snapshot,
    line: String,
)
    requires
        session.phase == Phase::AwaitingName,
        session.tx is Some,
        distinct(room),
        valid_name(without_newline(line@)),
    ensures
        ({
            let name = without_newline(line@);
            let next = transition(session, room, counters, Event::Line(line));
            &&& next.session.phase == Phase::Listing
            &&& next.session.name == name
            &&& distinct(next.room)
            &&& registered_once(next.room, name, session.tx->0)
            &&& next.announced == seq![told_to_others(join_message(name), next.room, name)]
            &&& next.announced[0].recipients == next.room.len() - 1
            &&& !present(others(next.room, Some(name)), name)
            &&& next.action == ActionView::Write(
                user_list_message(names(others(next.room, Some(name)))),
            )
        }),
{
    let name = without_newline(line@);
    let after = joined(room, name, session.tx->0);
    assert(transition(session, room, counters, Event::Line(line)).room == after);
    let at = if present(room, name) {
        place(room, name)
    } else {
        room.len() as int
    };
    assert(after[at] == (Member { name, tx: session.tx->0 }));
    assert forall|other: int| 0 <= other < after.len() && other != at implies (
    #[trigger] after[other]).name != name by {
        assert(after[other] == room[other]);
    }
    lemma_others_of_member(after, at);
    let rest = others(after, Some(name));
    if present(rest, name) {
        let i = place(rest, name);
        let a = if i < at {
            i
        } else {
            i + 1
        };
        assert(rest[i] == after[a]);
    }
}

/// Every other name is turned down: the session answers with the rejection
/// and ends when that is written or has failed to be. The room stays as it
/// was throughout, and nothing is said to anyone in it.
pub proof fn lemma_invalid_name_is_turned_down(
    session: SessionView,
    room: Seq<Member>,
    counters: Snapshot,
    line: String,
    written: bool,
)
    requires
        session.phase == Phase::AwaitingName,
        !valid_name(without_newline(line@)),
    ensures
        ({
            let first = transition(session, room, counters, Event::Line(line));
            let reply = if written { Event::Written } else { Event::WriteFailed };
            let second = transition(first.session, first.room, first.counters, reply);
            &&& first.action == ActionView::Write(REJECTION@)
            &&& first.room == room
            &&& first.announced.len() == 0
            &&& second.session.phase == Phase::Terminated
            &&& second.action == ActionView::Close
            &&& second.room == room
            &&& second.announced.len() == 0
        }),
{
}

/// White space is no part of a name: a line that holds anything but the name
/// and the newline that ends it, be it a space before the name or a carriage
/// return after it, holds no valid name.
pub proof fn lemma_name_with_white_space_is_invalid(name: Seq<char>, at: int)
    requires
        0 <= at < name.len(),
        is_white_space(name[at]),
    ensures
        !valid_name(name),
{
    assert(!is_ascii_alphanumeric(name[at]));
}

/// What a member says does not depend on how it arrives: bytes that come in
/// two reads are passed on as the same lines, in the same order, as if they
/// had come in one, and the same bytes are kept for later. So a line that is
/// cut in two by the reads goes out as one message.
pub proof fn lemma_talk_in_pieces(
    session: SessionView,
    room: Seq<Member>,
    counters: Snapshot,
    head: Seq<u8>,
    tail: Seq<u8>,
)
    ensures
        ({
            let first = talk(session, room, counters, head);
            let second = talk(first.session, room, counters, tail);
            let once = talk(session, room, counters, head + tail);
            &&& first.announced + second.announced == once.announced
            &&& second.session == once.session
        }),
{
    let first = talk(session, room, counters, head);
    let second = talk(first.session, room, counters, tail);
    let once = talk(session, room, counters, head + tail);
    lemma_lines_of_pieces(session.buffered + head, tail);
    assert((session.buffered + head) + tail == session.buffered + (head + tail));
    assert(first.announced + second.announced =~= once.announced);
}

/// A session that is over stays over: whatever it is told, it touches neither
/// the room nor the counters, says nothing, and asks for the connection to be
/// closed. So a member leaves the room once, however often the end is told.
pub proof fn lemma_terminated_is_final(
    session: SessionView,
    room: Seq<Member>,
    counters: Snapshot,
    event: Event,
)
    requires
        session.phase == Phase::Terminated,
    ensures
        transition(session, room, counters, event) == proceed(
            session,
            room,
            counters,
            Phase::Terminated,
            ActionView::Close,
        ),
{
}

/// A read or a write that fails ends the session, whatever it was about, and
/// is counted as one error; a session that was over already is left alone.
pub proof fn lemma_failure_ends_the_session(
    session: SessionView,
    room: Seq<Member>,
    counters: Snapshot,
    reading: bool,
)
    requires
        session.phase != Phase::Terminated,
    ensures
        ({
            let event = if reading { Event::ReadFailed } else { Event::WriteFailed };
            transition(session, room, counters, event) == end(session, room, counters.failed())
        }),
        end(session, room, counters.failed()).session.phase == Phase::Terminated,
        end(session, room, counters.failed()).action == ActionView::Close,
        end(session, room, counters.failed()).counters == counters.failed(),
{
}

/// A member whose session ends is out of the room when it has ended, and
/// those who stay have been told, all of them.
pub proof fn lemma_end_leaves_the_room(session: SessionView, room: Seq<Member>, counters: Snapshot)
    requires
        session.phase.registered(),
        distinct(room),
    ensures
        end(session, room, counters).session.phase == Phase::Terminated,
        end(session, room, counters).room == left(room, session.name),
        !present(end(session, room, counters).room, session.name),
        end(session, room, counters).announced == seq![
            Told {
                line: leave_message(session.name),
                recipients: left(room, session.name).len(),
            },
        ],
{
    lemma_left_member_is_gone(room, session.name, None);
    lemma_others_of_absent(left(room, session.name), Some(session.name));
}

/// The session of one connection.
pub struct ClientSession {
    phase: Phase,
    name: String,
    buffer: LineBuffer,
    tx: Option<UnboundedSender<String>>,
}

impl ClientSession {
    /// The session as contracts see it.
    pub closed spec fn view(&self) -> SessionView {
        SessionView { phase: self.phase, name: self.name@, buffered: self.buffer@, tx: self.tx }
    }

    /// What holds of every session: until its name is in the room, it keeps
    /// the sending side of its queue.
    #[verifier::type_invariant]
    pub open spec fn well_formed(&self) -> bool {
        self@.phase.may_register() ==> self@.tx is Some
    }

    /// The session of a connection that was just accepted, and the receiving
    /// side of the queue on which the room will reach the member.
    pub fn new() -> (opened: (Self, UnboundedReceiver<String>))
        ensures
            opened.0@.phase == Phase::Connected,
            opened.0@.name == Seq::<char>::empty(),
            opened.0@.buffered == Seq::<u8>::empty(),
            opened.0@.tx is Some,
    {
        let (tx, rx) = unbounded_channel();
        let session = ClientSession {
            phase: Phase::Connected,
            name: String::new(),
            buffer: LineBuffer::new(),
            tx: Some(tx),
        };
        (session, rx)
    }

    /// Where the session stands.
    pub fn state(&self) -> (state: SessionState)
        ensures
            state == self@.phase.state(),
    {
        match self.phase {
            Phase::Connected | Phase::Greeting => SessionState::Connected,
            Phase::AwaitingName | Phase::Rejecting => SessionState::AwaitingName,
            Phase::Listing | Phase::Active | Phase::Delivering { .. } => SessionState::Active,
            Phase::Terminated => SessionState::Terminated,
        }
    }

    /// The member's name; empty until a name is in the room.
    pub fn name(&self) -> (name: &str)
        ensures
            name@ == self@.name,
    {
        self.name.as_str()
    }

    fn proceed(&mut self, phase: Phase, action: Action) -> (step: Step)
        requires
            phase.may_register() ==> old(self)@.tx is Some,
        ensures
            final(self)@ == (SessionView { phase, ..old(self)@ }),
            step.action == action,
            told(step.announced@) == Seq::<Told>::empty(),
            counted(step.announced@),
    {
        self.phase = phase;
        let announced: Vec<Announcement> = Vec::new();
        assert(told(announced@) == Seq::<Told>::empty());
        Step { action, announced }
    }

    fn end(&mut self, room: &mut ChatRoom, counters: Ghost<Snapshot>) -> (step: Step)
        ensures
            final(self)@ == end(old(self)@, old(room)@, counters@).session,
            final(room)@ == end(old(self)@, old(room)@, counters@).room,
            step.action@ == end(old(self)@, old(room)@, counters@).action,
            told(step.announced@) == end(old(self)@, old(room)@, counters@).announced,
            counted(step.announced@),
    {
        let was = self.phase;
        self.phase = Phase::Terminated;
        let mut announced: Vec<Announcement> = Vec::new();
        match was {
            Phase::Listing | Phase::Active | Phase::Delivering { .. } => {
                room.leave(self.name.as_str());
                let line = format_leave_message(self.name.as_str());
                let fanout = room.broadcast(line.as_str(), Some(self.name.as_str()));
                announced.push(Announcement { line, fanout });
                assert(told(announced@) == seq![
                    told_to_others(leave_message(self.name@), room@, self.name@),
                ]);
            },
            _ => {
                assert(told(announced@) == Seq::<Told>::empty());
            },
        }
        Step { action: Action::Close, announced }
    }

    fn handshake(&mut self, room: &mut ChatRoom, line: String, counters: Ghost<Snapshot>) -> (step:
        Step)
        requires
            old(self)@.phase == Phase::AwaitingName,
        ensures
            final(self)@ == handshake(old(self)@, old(room)@, counters@, line@).session,
            final(room)@ == handshake(old(self)@, old(room)@, counters@, line@).room,
            step.action@ == handshake(old(self)@, old(room)@, counters@, line@).action,
            told(step.announced@) == handshake(old(self)@, old(room)@, counters@, line@).announced,
            counted(step.announced@),
    {
        proof {
            use_type_invariant(&*self);
        }
        let name = strip_newline(line.as_str());
        if !is_valid_name(name) {
            return self.proceed(Phase::Rejecting, Action::Write(String::from_str(REJECTION)));
        }
        self.phase = Phase::Listing;
        let mut held: Option<UnboundedSender<String>> = None;
        core::mem::swap(&mut self.tx, &mut held);
        self.name = String::from_str(name);
        if let Some(tx) = held {
            room.join(String::from_str(name), tx);
        }
        let line = format_join_message(name);
        let fanout = room.broadcast(line.as_str(), Some(name));
        let others = room.user_list(Some(name));
        let listing = format_user_list(others.as_slice());
        let mut announced: Vec<Announcement> = Vec::new();
        announced.push(Announcement { line, fanout });
        assert(told(announced@) == seq![told_to_others(join_message(name@), room@, name@)]);
        Step { action: Action::Write(listing), announced }
    }

    fn talk(&mut self, room: &ChatRoom, data: &[u8], counters: Ghost<Snapshot>) -> (step: Step)
        requires
            !old(self)@.phase.may_register(),
        ensures
            final(self)@ == talk(old(self)@, room@, counters@, data@).session,
            step.action@ == talk(old(self)@, room@, counters@, data@).action,
            told(step.announced@) == talk(old(self)@, room@, counters@, data@).announced,
            counted(step.announced@),
    {
        let mut buffer = LineBuffer::new();
        core::mem::swap(&mut self.buffer, &mut buffer);
        let whole = buffer.feed(data);
        self.buffer = buffer;
        let ghost heard = lines(old(self)@.buffered + data@);
        let mut announced: Vec<Announcement> = Vec::new();
        let mut i: usize = 0;
        while i < whole.len()
            invariant
                i <= whole.len(),
                whole@.len() == heard.len(),
                forall|j: int| 0 <= j < whole.len() ==> whole@[j]@ == heard[j],
                announced@.len() == i,
                counted(announced@),
                forall|j: int|
                    0 <= j < i ==> {
                        &&& (#[trigger] announced@[j]).line@ == chat_message(self.name@, heard[j])
                        &&& announced@[j].fanout.recipients == others(
                            room@,
                            Some(self.name@),
                        ).len()
                    },
            decreases whole.len() - i,
        {
            let line = format_chat_message(self.name.as_str(), whole[i].as_slice());
            let fanout = room.broadcast(line.as_str(), Some(self.name.as_str()));
            announced.push(Announcement { line, fanout });
            i += 1;
        }
        assert(told(announced@) =~= Seq::new(
            heard.len(),
            |i: int| told_to_others(chat_message(self.name@, heard[i]), room@, self.name@),
        ));
        Step { action: Action::Wait, announced }
    }

    /// Takes in what happened on the connection, does what follows from it in
    /// the room and on the counters, and says what to do next. Each line for
    /// the other members is handed to the room, and is reported with what the
    /// room says of how far it went.
    pub fn step(&mut self, room: &mut ChatRoom, metrics: &mut Metrics, event: Event) -> (step: Step)
        ensures
            final(self)@ == transition(old(self)@, old(room)@, old(metrics).counters(), event).session,
            final(room)@ == transition(old(self)@, old(room)@, old(metrics).counters(), event).room,
            final(metrics).counters() == transition(
                old(self)@,
                old(room)@,
                old(metrics).counters(),
                event,
            ).counters,
            final(metrics).start_time == old(metrics).start_time,
            step.action@ == transition(old(self)@, old(room)@, old(metrics).counters(), event).action,
            told(step.announced@) == transition(
                old(self)@,
                old(room)@,
                old(metrics).counters(),
                event,
            ).announced,
            counted(step.announced@),
    {
        proof {
            use_type_invariant(&*self);
        }
        let phase = self.phase;
        match (phase, event) {
            (Phase::Terminated, _) => self.proceed(Phase::Terminated, Action::Close),
            (_, Event::ReadFailed) | (_, Event::WriteFailed) => {
                metrics.error_occurred();
                self.end(room, Ghost(metrics.counters()))
            },
            (Phase::Connected, Event::Accepted) => {
                self.proceed(Phase::Greeting, Action::Write(String::from_str(WELCOME)))
            },
            (Phase::Greeting, Event::Written) => {
                metrics.bytes_sent(WELCOME.len() as u64);
                self.proceed(Phase::AwaitingName, Action::ReadLine)
            },
            (Phase::AwaitingName, Event::Line(line)) => {
                metrics.bytes_received(line.as_str().len() as u64);
                self.handshake(room, line, Ghost(metrics.counters()))
            },
            (Phase::Listing, Event::Written) => self.proceed(Phase::Active, Action::Wait),
            (Phase::Active, Event::Received(data)) => {
                metrics.bytes_received(data.len() as u64);
                self.talk(room, data.as_slice(), Ghost(metrics.counters()))
            },
            (Phase::Active, Event::Queued(message)) => {
                let len = message.as_str().len() as u64;
                self.proceed(Phase::Delivering { len }, Action::Write(message))
            },
            (Phase::Delivering { len }, Event::Written) => {
                metrics.bytes_sent(len);
                self.proceed(Phase::Active, Action::Wait)
            },
            _ => self.end(room, Ghost(metrics.counters())),
        }
    }
}

} // verus!
