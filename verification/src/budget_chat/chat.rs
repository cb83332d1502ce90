//! The room: who is in it, and the channel on which each member is reached.

use crate::budget_chat::protocol::texts;
use tokio::sync::mpsc::UnboundedSender;
use vstd::prelude::*;
use vstd::string::*;

verus! {

/// `tokio::sync::mpsc::UnboundedSender`, the sending side of a queue without
/// bound. Nothing is known of what one holds or of the queue behind it.
#[verifier::external_type_specification]
#[verifier::external_body]
#[verifier::reject_recursive_types(T)]
pub struct ExUnboundedSender<T>(tokio::sync::mpsc::UnboundedSender<T>);

/// `tokio::sync::mpsc::UnboundedReceiver`, the receiving side of a queue
/// without bound. Nothing is known of what one holds.
#[verifier::external_type_specification]
#[verifier::external_body]
#[verifier::reject_recursive_types(T)]
pub struct ExUnboundedReceiver<T>(tokio::sync::mpsc::UnboundedReceiver<T>);

/// `tokio::sync::mpsc::unbounded_channel` makes a queue and hands out its two
/// sides; nothing is claimed of them.
pub assume_specification<T>[ tokio::sync::mpsc::unbounded_channel::<T> ]() -> (
    tokio::sync::mpsc::UnboundedSender<T>,
    tokio::sync::mpsc::UnboundedReceiver<T>,
);

/// `UnboundedSender::send` queues `line` for the receiver without blocking,
/// and fails once the receiver is closed or gone. Which of the two happens is
/// the receiver's doing, so nothing is claimed of the answer.
#[verifier::external_body]
fn send_line(tx: &UnboundedSender<String>, line: String) -> (queued: bool) {
    tx.send(line).is_ok()
}

/// One member of the room: a name, and the sending side of the member's queue.
pub struct Member {
    pub name: Seq<char>,
    pub tx: UnboundedSender<String>,
}

/// The names of `room`, in the room's order.
pub open spec fn names(room: Seq<Member>) -> Seq<Seq<char>> {
    Seq::new(room.len(), |i: int| room[i].name)
}

/// No name occurs twice in `room`.
pub open spec fn distinct(room: Seq<Member>) -> bool {
    forall|i: int, j: int|
        0 <= i < room.len() && 0 <= j < room.len() && i != j ==> #[trigger] room[i].name
            != #[trigger] room[j].name
}

/// Someone in `room` is called `name`.
pub open spec fn present(room: Seq<Member>, name: Seq<char>) -> bool {
    exists|i: int| 0 <= i < room.len() && #[trigger] room[i].name == name
}

/// Where in `room` the member called `name` stands, if there is one.
pub open spec fn place(room: Seq<Member>, name: Seq<char>) -> int {
    choose|i: int| 0 <= i < room.len() && #[trigger] room[i].name == name
}

/// `room` after `name` has joined with `tx`: a new member at the end, or, where
/// the name was taken, the same member reached on `tx` from now on.
pub open spec fn joined(room: Seq<Member>, name: Seq<char>, tx: UnboundedSender<String>) -> Seq<
    Member,
> {
    if present(room, name) {
        room.update(place(room, name), Member { name, tx })
    } else {
        room.push(Member { name, tx })
    }
}

/// `room` after `name` has left: without that member, or as it was where
/// nobody is called `name`.
pub open spec fn left(room: Seq<Member>, name: Seq<char>) -> Seq<Member> {
    if present(room, name) {
        room.remove(place(room, name))
    } else {
        room
    }
}

/// The room as a mapping: the queue on which each name is reached.
pub open spec fn directory(room: Seq<Member>) -> Map<Seq<char>, UnboundedSender<String>> {
    Map::new(|name: Seq<char>| present(room, name), |name: Seq<char>| room[place(room, name)].tx)
}

/// Joining puts the name in the mapping, in place of what it was mapped to.
pub proof fn lemma_join_is_insert(room: Seq<Member>, name: Seq<char>, tx: UnboundedSender<String>)
    requires
        distinct(room),
    ensures
        directory(joined(room, name, tx)) == directory(room).insert(name, tx),
{
    let after = joined(room, name, tx);
    let target = directory(room).insert(name, tx);
    let at = if present(room, name) {
        place(room, name)
    } else {
        room.len() as int
    };
    assert(after[at].name == name);
    assert forall|other: Seq<char>| present(after, other) <==> #[trigger] target.dom().contains(
        other,
    ) by {
        if present(after, other) && other != name {
            let i = place(after, other);
            assert(room[i].name == other);
        }
        if present(room, other) {
            let i = place(room, other);
            assert(after[i].name == other);
        }
    }
    assert forall|other: Seq<char>| present(after, other) implies after[place(after, other)].tx
        == #[trigger] target[other] by {
        let i = place(after, other);
        if other != name {
            assert(room[i].name == other);
        }
    }
    assert(directory(after) =~= target);
}

/// Leaving takes the name out of the mapping.
pub proof fn lemma_leave_is_remove(room: Seq<Member>, name: Seq<char>)
    requires
        distinct(room),
    ensures
        directory(left(room, name)) == directory(room).remove(name),
{
    let after = left(room, name);
    let target = directory(room).remove(name);
    lemma_left_member_is_gone(room, name, None);
    let at = place(room, name);
    assert forall|other: Seq<char>| present(after, other) <==> #[trigger] target.dom().contains(
        other,
    ) by {
        if present(after, other) {
            let i = place(after, other);
            let a = if present(room, name) && i >= at {
                i + 1
            } else {
                i
            };
            assert(room[a].name == other);
        }
        if present(room, other) && other != name {
            let a = place(room, other);
            let i = if present(room, name) && a > at {
                a - 1
            } else {
                a
            };
            assert(after[i].name == other);
        }
    }
    assert forall|other: Seq<char>| present(after, other) implies after[place(after, other)].tx
        == #[trigger] target[other] by {
        let i = place(after, other);
        let a = if present(room, name) && i >= at {
            i + 1
        } else {
            i
        };
        assert(room[a] == after[i]);
        assert(place(room, other) == a);
    }
    assert(directory(after) =~= target);
}

/// Joining keeps the names of a room distinct.
pub proof fn lemma_joined_distinct(room: Seq<Member>, name: Seq<char>, tx: UnboundedSender<String>)
    requires
        distinct(room),
    ensures
        distinct(joined(room, name, tx)),
{
}

/// Leaving keeps the names of a room distinct.
pub proof fn lemma_left_distinct(room: Seq<Member>, name: Seq<char>)
    requires
        distinct(room),
    ensures
        distinct(left(room, name)),
{
}

/// The members of `room` but the one called `except`, in the room's order.
pub open spec fn others(room: Seq<Member>, except: Option<Seq<char>>) -> Seq<Member>
    decreases room.len(),
{
    if room.len() == 0 {
        Seq::empty()
    } else if except == Some(room.last().name) {
        others(room.drop_last(), except)
    } else {
        others(room.drop_last(), except).push(room.last())
    }
}

/// The room after each of `arrivals` has joined an empty room, in their order.
pub open spec fn gathered(arrivals: Seq<Member>) -> Seq<Member>
    decreases arrivals.len(),
{
    if arrivals.len() == 0 {
        Seq::empty()
    } else {
        joined(gathered(arrivals.drop_last()), arrivals.last().name, arrivals.last().tx)
    }
}

/// Members under different names all find their place: the room after they
/// have joined holds each of them, in the order in which they came.
pub proof fn lemma_gathered_distinct(arrivals: Seq<Member>)
    requires
        distinct(arrivals),
    ensures
        gathered(arrivals) == arrivals,
    decreases arrivals.len(),
{
    if arrivals.len() > 0 {
        let before = arrivals.drop_last();
        lemma_gathered_distinct(before);
        assert(!present(before, arrivals.last().name)) by {
            if present(before, arrivals.last().name) {
                let i = place(before, arrivals.last().name);
                assert(arrivals[i].name == arrivals[arrivals.len() - 1].name);
            }
        }
        assert(before.push(arrivals.last()) == arrivals);
    }
}

/// Where nobody is called `except`, everybody is among the others.
pub proof fn lemma_others_of_absent(room: Seq<Member>, except: Option<Seq<char>>)
    requires
        except matches Some(name) ==> !present(room, name),
    ensures
        others(room, except) == room,
    decreases room.len(),
{
    if room.len() > 0 {
        let before = room.drop_last();
        assert forall|name: Seq<char>| except == Some(name) implies !present(before, name) by {
            if present(before, name) {
                let i = place(before, name);
                assert(room[i].name == name);
            }
        }
        lemma_others_of_absent(before, except);
        assert(room[room.len() - 1].name == room.last().name);
        assert(before.push(room.last()) == room);
    }
}

/// The others of a member are the room without that member: everybody else
/// once, in the room's order, and the member not at all.
pub proof fn lemma_others_of_member(room: Seq<Member>, at: int)
    requires
        distinct(room),
        0 <= at < room.len(),
    ensures
        others(room, Some(room[at].name)) == room.remove(at),
    decreases room.len(),
{
    let except = Some(room[at].name);
    let before = room.drop_last();
    if at == room.len() - 1 {
        assert(!present(before, room[at].name)) by {
            if present(before, room[at].name) {
                let i = place(before, room[at].name);
                assert(room[i].name == room[at].name);
            }
        }
        lemma_others_of_absent(before, except);
        assert(room.remove(at) == before);
    } else {
        lemma_others_of_member(before, at);
        assert(room[room.len() - 1].name != room[at].name);
        assert(before.remove(at).push(room.last()) == room.remove(at));
    }
}

/// One message after any number of arrivals under different names is handed
/// to every member but its sender: to one fewer than there are members, and
/// to none of them twice.
pub proof fn lemma_broadcast_reaches_everyone_else(arrivals: Seq<Member>, sender: int)
    requires
        distinct(arrivals),
        0 <= sender < arrivals.len(),
    ensures
        others(gathered(arrivals), Some(arrivals[sender].name)) == arrivals.remove(sender),
        others(gathered(arrivals), Some(arrivals[sender].name)).len() == arrivals.len() - 1,
        distinct(others(gathered(arrivals), Some(arrivals[sender].name))),
        !present(others(gathered(arrivals), Some(arrivals[sender].name)), arrivals[sender].name),
{
    lemma_gathered_distinct(arrivals);
    lemma_others_of_member(arrivals, sender);
    let rest = arrivals.remove(sender);
    assert(distinct(rest)) by {
        assert forall|i: int, j: int|
            0 <= i < rest.len() && 0 <= j < rest.len() && i != j implies #[trigger] rest[i].name
            != #[trigger] rest[j].name by {
            let a = if i < sender { i } else { i + 1 };
            let b = if j < sender { j } else { j + 1 };
            assert(rest[i] == arrivals[a] && rest[j] == arrivals[b]);
        }
    }
    assert(!present(rest, arrivals[sender].name)) by {
        if present(rest, arrivals[sender].name) {
            let i = place(rest, arrivals[sender].name);
            let a = if i < sender { i } else { i + 1 };
            assert(rest[i] == arrivals[a]);
        }
    }
}

/// Whoever is among the others is in the room.
pub proof fn lemma_others_are_present(room: Seq<Member>, except: Option<Seq<char>>, name: Seq<char>)
    requires
        present(others(room, except), name),
    ensures
        present(room, name),
    decreases room.len(),
{
    if room.len() > 0 {
        let before = room.drop_last();
        let at = place(others(room, except), name);
        if except != Some(room.last().name) && at == others(before, except).len() {
            assert(room[room.len() - 1].name == name);
        } else {
            assert(others(before, except)[at].name == name);
            lemma_others_are_present(before, except, name);
            let i = place(before, name);
            assert(room[i].name == name);
        }
    }
}

/// A member that has left is gone: the name is not in the room, not in any
/// list of its members, and not among those to whom a message is handed.
pub proof fn lemma_left_member_is_gone(
    room: Seq<Member>,
    name: Seq<char>,
    except: Option<Seq<char>>,
)
    requires
        distinct(room),
    ensures
        !present(left(room, name), name),
        !present(others(left(room, name), except), name),
        !names(others(left(room, name), except)).contains(name),
{
    let after = left(room, name);
    assert(!present(after, name)) by {
        if present(after, name) {
            let i = place(after, name);
            let at = place(room, name);
            let a = if i < at { i } else { i + 1 };
            assert(after[i] == room[a]);
        }
    }
    if present(others(after, except), name) {
        lemma_others_are_present(after, except, name);
    }
    let listed = others(after, except);
    if names(listed).contains(name) {
        let i = choose|i: int| 0 <= i < names(listed).len() && names(listed)[i] == name;
        assert(listed[i].name == name);
    }
}

/// Who is gone stays gone until the name is taken again: what others do in
/// the room, joining or leaving, brings no name back but their own.
pub proof fn lemma_absent_stays_absent(
    room: Seq<Member>,
    name: Seq<char>,
    other: Seq<char>,
    tx: UnboundedSender<String>,
)
    requires
        !present(room, name),
        other != name,
    ensures
        !present(joined(room, other, tx), name),
        !present(left(room, other), name),
{
    let more = joined(room, other, tx);
    if present(more, name) {
        let i = place(more, name);
        if i < room.len() {
            assert(room[i].name == name);
        }
    }
    let fewer = left(room, other);
    if present(fewer, name) {
        let i = place(fewer, name);
        let at = place(room, other);
        let a = if present(room, other) && i >= at {
            i + 1
        } else {
            i
        };
        assert(room[a].name == name);
    }
}

/// Leaving twice is leaving once.
pub proof fn lemma_leave_is_idempotent(room: Seq<Member>, name: Seq<char>)
    requires
        distinct(room),
    ensures
        left(left(room, name), name) == left(room, name),
{
    lemma_left_member_is_gone(room, name, None);
}

/// The name that `except` holds, as characters.
pub open spec fn excepted(except: Option<&str>) -> Option<Seq<char>> {
    match except {
        Some(name) => Some(name@),
        None => None,
    }
}

/// `list` is what is handed out when `msg` goes to every member of `room`
/// but `except`: one line for each of the others, in the room's order, each
/// with the place at which that member stands in the room, and each line
/// `msg`. No member is handed more than one line.
pub open spec fn hands_out(
    list: Seq<(usize, String)>,
    room: Seq<Member>,
    msg: Seq<char>,
    except: Option<Seq<char>>,
) -> bool {
    &&& list.len() == others(room, except).len()
    &&& forall|i: int|
        0 <= i < list.len() ==> {
            &&& (#[trigger] list[i]).0 < room.len()
            &&& room[list[i].0 as int] == others(room, except)[i]
            &&& list[i].1@ == msg
        }
    &&& forall|i: int, j: int|
        0 <= i < j < list.len() ==> (#[trigger] list[i]).0 < (#[trigger] list[j]).0
}

/// A message for everyone goes to everyone: where nobody is excepted, or
/// somebody who is not in the room, each member is handed the message once,
/// in the room's order.
pub proof fn lemma_everyone_is_handed_the_message(
    list: Seq<(usize, String)>,
    room: Seq<Member>,
    msg: Seq<char>,
    except: Option<Seq<char>>,
)
    requires
        distinct(room),
        hands_out(list, room, msg, except),
        except matches Some(name) ==> !present(room, name),
    ensures
        list.len() == room.len(),
        forall|i: int| 0 <= i < list.len() ==> (#[trigger] list[i]).0 == i && list[i].1@ == msg,
{
    lemma_others_of_absent(room, except);
    assert forall|i: int| 0 <= i < list.len() implies (#[trigger] list[i]).0 == i by {
        let at = list[i].0 as int;
        assert(room[at] == others(room, except)[i]);
        assert(room[at].name == room[i].name);
    }
}

/// A message from a member goes to everyone else: each other member is
/// handed the message once, in the room's order, and the sender is not.
pub proof fn lemma_everyone_else_is_handed_the_message(
    list: Seq<(usize, String)>,
    room: Seq<Member>,
    msg: Seq<char>,
    sender: int,
)
    requires
        distinct(room),
        0 <= sender < room.len(),
        hands_out(list, room, msg, Some(room[sender].name)),
    ensures
        list.len() == room.len() - 1,
        forall|i: int|
            0 <= i < list.len() ==> (#[trigger] list[i]).0 == (if i < sender {
                i
            } else {
                i + 1
            }) && list[i].1@ == msg,
        forall|i: int| 0 <= i < list.len() ==> (#[trigger] list[i]).0 != sender,
{
    lemma_others_of_member(room, sender);
    assert forall|i: int| 0 <= i < list.len() implies (#[trigger] list[i]).0 == (if i < sender {
        i
    } else {
        i + 1
    }) by {
        let at = list[i].0 as int;
        let from = if i < sender {
            i
        } else {
            i + 1
        };
        assert(room[at] == others(room, Some(room[sender].name))[i]);
        assert(room.remove(sender)[i] == room[from]);
        assert(room[at].name == room[from].name);
    }
}

/// Nothing is handed to who has left: in the room that a member has left,
/// whatever is sent and whoever is excepted, no line is for a member of that
/// name.
pub proof fn lemma_nothing_is_handed_to_who_left(
    list: Seq<(usize, String)>,
    room: Seq<Member>,
    name: Seq<char>,
    msg: Seq<char>,
    except: Option<Seq<char>>,
)
    requires
        distinct(room),
        hands_out(list, left(room, name), msg, except),
    ensures
        forall|i: int|
            0 <= i < list.len() ==> left(room, name)[(#[trigger] list[i]).0 as int].name != name,
{
    lemma_left_member_is_gone(room, name, except);
    let after = left(room, name);
    assert forall|i: int| 0 <= i < list.len() implies after[(#[trigger] list[i]).0 as int].name
        != name by {
        if after[list[i].0 as int].name == name {
            assert(others(after, except)[i].name == name);
        }
    }
}

/// How far one message went: to how many members it was handed, and how many
/// of their queues took it.
#[derive(Clone, Copy, Debug, PartialEq, Eq, Structural)]
pub struct Fanout {
    pub recipients: usize,
    pub delivered: usize,
}

struct Entry {
    name: String,
    tx: UnboundedSender<String>,
}

spec fn members(entries: Seq<Entry>) -> Seq<Member> {
    Seq::new(entries.len(), |i: int| Member { name: entries[i].name@, tx: entries[i].tx })
}

/// The registry of a chat room. No two members have the same name.
pub struct ChatRoom {
    entries: Vec<Entry>,
}

impl ChatRoom {
    /// The members in the order in which their names were first taken.
    pub closed spec fn view(&self) -> Seq<Member> {
        members(self.entries@)
    }

    /// What holds of every room: no name occurs in it twice.
    #[verifier::type_invariant]
    pub open spec fn well_formed(&self) -> bool {
        distinct(self@)
    }

    /// An empty room.
    pub fn new() -> (room: Self)
        ensures
            room@ == Seq::<Member>::empty(),
    {
        ChatRoom { entries: Vec::new() }
    }

    fn find(&self, name: &str) -> (at: Option<usize>)
        ensures
            at is Some <==> present(self@, name@),
            at matches Some(i) ==> i == place(self@, name@) && i < self@.len(),
    {
        proof {
            use_type_invariant(self);
        }
        let mut i: usize = 0;
        while i < self.entries.len()
            invariant
                i <= self.entries.len(),
                self@ == members(self.entries@),
                forall|j: int| 0 <= j < i ==> self@[j].name != name@,
                distinct(self@),
            decreases self.entries.len() - i,
        {
            if self.entries[i].name.as_str().eq(name) {
                assert(self@[i as int].name == name@);
                return Some(i);
            }
            i += 1;
        }
        None
    }

    /// Registers `name` with the queue behind `tx`. A name that is taken
    /// keeps its place and is reached on `tx` from now on.
    pub fn join(&mut self, name: String, tx: UnboundedSender<String>)
        ensures
            final(self)@ == joined(old(self)@, name@, tx),
    {
        let at = self.find(name.as_str());
        proof {
            use_type_invariant(&*self);
        }
        let ghost before = self@;
        let mut entries = Vec::new();
        core::mem::swap(&mut self.entries, &mut entries);
        match at {
            Some(i) => {
                entries.set(i, Entry { name, tx });
            },
            None => {
                entries.push(Entry { name, tx });
            },
        }
        proof {
            let after = members(entries@);
            assert(after == joined(before, name@, tx));
            lemma_joined_distinct(before, name@, tx);
        }
        self.entries = entries;
    }

    /// Removes `name` from the room. Nothing happens where nobody is called so.
    pub fn leave(&mut self, name: &str)
        ensures
            final(self)@ == left(old(self)@, name@),
    {
        let at = self.find(name);
        if let Some(i) = at {
            proof {
                use_type_invariant(&*self);
            }
            let ghost before = self@;
            let mut entries = Vec::new();
            core::mem::swap(&mut self.entries, &mut entries);
            entries.remove(i);
            proof {
                let after = members(entries@);
                assert(after == left(before, name@));
                lemma_left_distinct(before, name@);
            }
            self.entries = entries;
        }
    }

    /// The names of the members but `except`, in the room's order.
    pub fn user_list(&self, except: Option<&str>) -> (list: Vec<String>)
        ensures
            texts(list@) == names(others(self@, excepted(except))),
    {
        let mut list: Vec<String> = Vec::new();
        let mut i: usize = 0;
        while i < self.entries.len()
            invariant
                i <= self.entries.len(),
                self@ == members(self.entries@),
                texts(list@) == names(others(self@.take(i as int), excepted(except))),
            decreases self.entries.len() - i,
        {
            proof {
                assert(self@.take(i + 1).drop_last() == self@.take(i as int));
            }
            let ghost listed = list@;
            let ghost seen = others(self@.take(i as int), excepted(except));
            if !is_excepted(self.entries[i].name.as_str(), except) {
                list.push(self.entries[i].name.clone());
                proof {
                    assert(texts(list@) =~= texts(listed).push(self@[i as int].name));
                    assert(names(seen.push(self@[i as int])) =~= names(seen).push(
                        self@[i as int].name,
                    ));
                }
            }
            i += 1;
        }
        proof {
            assert(self@.take(self.entries.len() as int) == self@);
        }
        list
    }

    /// What goes out when `msg` is sent to every member but `except`: for
    /// each of the others, in the room's order, the place of the member in
    /// the room and the line for that member's queue.
    pub fn deliveries(&self, msg: &str, except: Option<&str>) -> (list: Vec<(usize, String)>)
        ensures
            hands_out(list@, self@, msg@, excepted(except)),
    {
        let mut list: Vec<(usize, String)> = Vec::new();
        let mut i: usize = 0;
        while i < self.entries.len()
            invariant
                i <= self.entries.len(),
                self@ == members(self.entries@),
                list@.len() == others(self@.take(i as int), excepted(except)).len(),
                forall|k: int|
                    0 <= k < list@.len() ==> {
                        &&& (#[trigger] list@[k]).0 < i
                        &&& self@[list@[k].0 as int] == others(
                            self@.take(i as int),
                            excepted(except),
                        )[k]
                        &&& list@[k].1@ == msg@
                    },
                forall|k: int, l: int|
                    0 <= k < l < list@.len() ==> (#[trigger] list@[k]).0 < (#[trigger] list@[l]).0,
            decreases self.entries.len() - i,
        {
            proof {
                assert(self@.take(i + 1).drop_last() == self@.take(i as int));
                assert(self@.take(i + 1).last() == self@[i as int]);
            }
            if !is_excepted(self.entries[i].name.as_str(), except) {
                list.push((i, String::from_str(msg)));
            }
            i += 1;
        }
        proof {
            assert(self@.take(self.entries.len() as int) == self@);
        }
        list
    }

    /// Hands `msg` to every member but `except`, once each and in the room's
    /// order: each line of `deliveries` goes into the queue of the member at
    /// its place. A member whose queue no longer takes lines is passed over.
    pub fn broadcast(&self, msg: &str, except: Option<&str>) -> (fanout: Fanout)
        ensures
            fanout.recipients == others(self@, excepted(except)).len(),
            fanout.delivered <= fanout.recipients,
    {
        let list = self.deliveries(msg, except);
        let mut fanout = Fanout { recipients: list.len(), delivered: 0 };
        let ghost planned = list@;
        for delivery in it: list
            invariant
                self@ == members(self.entries@),
                fanout.delivered <= it.index(),
                fanout.recipients == planned.len(),
                it.seq() == planned,
                forall|k: int| 0 <= k < planned.len() ==> (#[trigger] planned[k]).0 < self@.len(),
        {
            let (to, line) = delivery;
            if send_line(&self.entries[to].tx, line) {
                fanout.delivered += 1;
            }
        }
        fanout
    }
}

fn is_excepted(name: &str, except: Option<&str>) -> (yes: bool)
    ensures
        yes == (excepted(except) == Some(name@)),
{
    match except {
        Some(other) => other.eq(name),
        None => false,
    }
}

} // verus!
