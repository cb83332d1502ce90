//! The nine-byte messages: a letter and two big-endian 32-bit numbers.

use vstd::prelude::*;

verus! {

/// The length of every message.
pub const MESSAGE_LEN: usize = 9;

/// The number that four bytes spell, most significant byte first.
pub open spec fn big_endian(bytes: Seq<u8>) -> int {
    bytes[0] * 0x100_0000 + bytes[1] * 0x1_0000 + bytes[2] * 0x100 + bytes[3]
}

/// A number below 2^32 read in two's complement.
pub open spec fn signed(value: int) -> int {
    if value >= 0x8000_0000 {
        value - 0x1_0000_0000
    } else {
        value
    }
}

/// What a client asks for.
#[derive(Clone, Copy, Debug, PartialEq, Eq, Structural)]
pub enum Message {
    Insert { timestamp: i32, price: i32 },
    Query { mintime: i32, maxtime: i32 },
}

/// The message that `bytes` spell, if they spell one: nine bytes, of which
/// the first is `I` or `Q` and the rest are two numbers.
pub open spec fn parsed(bytes: Seq<u8>) -> Option<Message> {
    if bytes.len() != MESSAGE_LEN {
        None
    } else if bytes[0] == 0x49 {
        Some(
            Message::Insert {
                timestamp: signed(big_endian(bytes.subrange(1, 5))) as i32,
                price: signed(big_endian(bytes.subrange(5, 9))) as i32,
            },
        )
    } else if bytes[0] == 0x51 {
        Some(
            Message::Query {
                mintime: signed(big_endian(bytes.subrange(1, 5))) as i32,
                maxtime: signed(big_endian(bytes.subrange(5, 9))) as i32,
            },
        )
    } else {
        None
    }
}

fn read_i32(buf: &[u8], at: usize) -> (value: i32)
    requires
        at + 4 <= buf.len(),
    ensures
        value == signed(big_endian(buf@.subrange(at as int, at + 4))),
{
    let unsigned: u64 = (buf[at] as u64) * 0x100_0000 + (buf[at + 1] as u64) * 0x1_0000 + (buf[at
        + 2] as u64) * 0x100 + (buf[at + 3] as u64);
    if unsigned >= 0x8000_0000 {
        (unsigned as i64 - 0x1_0000_0000) as i32
    } else {
        unsigned as i32
    }
}

impl Message {
    /// Reads one message.
    pub fn parse(buf: &[u8]) -> (message: Option<Self>)
        ensures
            message == parsed(buf@),
    {
        if buf.len() != MESSAGE_LEN {
            return None;
        }
        if buf[0] == 0x49 {
            Some(Message::Insert { timestamp: read_i32(buf, 1), price: read_i32(buf, 5) })
        } else if buf[0] == 0x51 {
            Some(Message::Query { mintime: read_i32(buf, 1), maxtime: read_i32(buf, 5) })
        } else {
            None
        }
    }
}

/// The four bytes that spell `mean`, most significant byte first.
pub fn serialize_mean(mean: i32) -> (bytes: [u8; 4])
    ensures
        signed(big_endian(bytes@)) == mean,
{
    let unsigned: u64 = if mean < 0 {
        (mean as i64 + 0x1_0000_0000) as u64
    } else {
        mean as u64
    };
    [
        (unsigned / 0x100_0000) as u8,
        (unsigned / 0x1_0000 % 0x100) as u8,
        (unsigned / 0x100 % 0x100) as u8,
        (unsigned % 0x100) as u8,
    ]
}

/// Four bytes spell one number, and a number is spelt by four bytes only.
pub proof fn lemma_big_endian_is_one_to_one(a: Seq<u8>, b: Seq<u8>)
    requires
        a.len() == 4,
        b.len() == 4,
        signed(big_endian(a)) == signed(big_endian(b)),
    ensures
        a == b,
{
    assert(a =~= b);
}

} // verus!
