//! The lines of the chat protocol.

use crate::text::{read_as_text, read_text, trim, trimmed};
use vstd::prelude::*;
use vstd::string::*;
use vstd::utf8::*;

verus! {

/// The longest name a member may take, in characters.
pub const MAX_NAME_LEN: usize = 16;

/// The line that greets a new connection.
pub const WELCOME: &'static str = "Welcome to Nyx 3.0! What shall I call you?\n";

/// The line that turns a name down.
pub const REJECTION: &'static str = "Invalid name. Disconnecting\n";

/// An ASCII letter or digit.
pub open spec fn is_ascii_alphanumeric(c: char) -> bool {
    ||| '0' <= c <= '9'
    ||| 'A' <= c <= 'Z'
    ||| 'a' <= c <= 'z'
}

/// A name a member may take: 1 to 16 characters, each an ASCII letter or digit.
pub open spec fn valid_name(name: Seq<char>) -> bool {
    &&& 1 <= name.len() <= MAX_NAME_LEN
    &&& forall|i: int| 0 <= i < name.len() ==> is_ascii_alphanumeric(#[trigger] name[i])
}

fn is_alphanumeric_byte(b: u8) -> (yes: bool)
    ensures
        yes == is_ascii_alphanumeric(b as char),
{
    (0x30 <= b && b <= 0x39) || (0x41 <= b && b <= 0x5A) || (0x61 <= b && b <= 0x7A)
}

/// Whether `name` may be taken by a member.
pub fn is_valid_name(name: &str) -> (ok: bool)
    ensures
        ok == valid_name(name@),
{
    if !name.is_ascii() {
        return false;
    }
    proof {
        is_ascii_spec_bytes(name);
    }
    let bytes = name.as_bytes();
    if bytes.len() == 0 || bytes.len() > MAX_NAME_LEN {
        return false;
    }
    let mut i: usize = 0;
    while i < bytes.len()
        invariant
            i <= bytes.len(),
            bytes@.len() == name@.len(),
            is_ascii_chars(name@),
            forall|j: int| 0 <= j < bytes.len() ==> bytes@[j] == name@[j] as u8,
            forall|j: int| 0 <= j < i ==> is_ascii_alphanumeric(#[trigger] name@[j]),
        decreases bytes.len() - i,
    {
        if !is_alphanumeric_byte(bytes[i]) {
            assert(!is_ascii_alphanumeric(name@[i as int]));
            return false;
        }
        i += 1;
    }
    true
}

/// The characters of each string of `strings`.
pub open spec fn texts(strings: Seq<String>) -> Seq<Seq<char>> {
    Seq::new(strings.len(), |i: int| strings[i]@)
}

/// The `parts` in a row with `separator` between each two.
pub open spec fn separated(parts: Seq<Seq<char>>, separator: Seq<char>) -> Seq<char>
    decreases parts.len(),
{
    if parts.len() == 0 {
        Seq::empty()
    } else if parts.len() == 1 {
        parts[0]
    } else {
        separated(parts.drop_last(), separator) + separator + parts.last()
    }
}

/// The line that tells the room that `name` has come in.
pub open spec fn join_message(name: Seq<char>) -> Seq<char> {
    "* "@ + name + " has entered the room\n"@
}

/// The line that tells the room that `name` has gone.
pub open spec fn leave_message(name: Seq<char>) -> Seq<char> {
    "* "@ + name + " has left the room\n"@
}

/// The line that tells a new member who is in the room.
pub open spec fn user_list_message(users: Seq<Seq<char>>) -> Seq<char> {
    "* The room contains: "@ + separated(users, ", "@) + "\n"@
}

/// The line that carries what `name` said: the bytes of the line read as
/// text, without the white space around it.
pub open spec fn chat_message(name: Seq<char>, line: Seq<u8>) -> Seq<char> {
    "["@ + name + "] "@ + trimmed(read_as_text(line)) + "\n"@
}

/// The announcement that `name` has entered the room.
pub fn format_join_message(name: &str) -> (line: String)
    ensures
        line@ == join_message(name@),
{
    let mut line = String::from_str("* ");
    line.append(name);
    line.append(" has entered the room\n");
    line
}

/// The announcement that `name` has left the room.
pub fn format_leave_message(name: &str) -> (line: String)
    ensures
        line@ == leave_message(name@),
{
    let mut line = String::from_str("* ");
    line.append(name);
    line.append(" has left the room\n");
    line
}

/// The listing of `users`, separated by a comma and a space.
pub fn format_user_list(users: &[String]) -> (line: String)
    ensures
        line@ == user_list_message(texts(users@)),
{
    let mut list = String::new();
    let mut i: usize = 0;
    while i < users.len()
        invariant
            i <= users.len(),
            list@ == separated(texts(users@).take(i as int), ", "@),
        decreases users.len() - i,
    {
        proof {
            let before = texts(users@).take(i as int);
            let after = texts(users@).take(i + 1);
            assert(after.drop_last() == before);
            assert(after.last() == users@[i as int]@);
            if i == 0 {
                assert(list@ + users@[i as int]@ == users@[i as int]@);
            }
        }
        if i > 0 {
            list.append(", ");
        }
        list.append(users[i].as_str());
        i += 1;
    }
    assert(texts(users@).take(users.len() as int) == texts(users@));
    let mut line = String::from_str("* The room contains: ");
    line.append(list.as_str());
    line.append("\n");
    line
}

/// What the room hears when `name` has sent the bytes `line`.
pub fn format_chat_message(name: &str, line: &[u8]) -> (message: String)
    ensures
        message@ == chat_message(name@, line@),
{
    let text = read_text(line);
    let mut message = String::from_str("[");
    message.append(name);
    message.append("] ");
    message.append(trim(text.as_str()));
    message.append("\n");
    message
}

} // verus!
