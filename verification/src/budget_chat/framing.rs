//! Lines out of a stream that arrives in pieces of any size.

use vstd::prelude::*;
use vstd::slice::{slice_subrange, slice_to_vec};

verus! {

/// The byte that ends a line.
pub const NEWLINE: u8 = 0x0A;

/// The first newline of `bytes` stands at `at`.
pub open spec fn is_line_end(bytes: Seq<u8>, at: int) -> bool {
    &&& 0 <= at < bytes.len()
    &&& bytes[at] == NEWLINE
    &&& forall|j: int| 0 <= j < at ==> bytes[j] != NEWLINE
}

/// `bytes` hold a newline, and so at least one whole line.
pub open spec fn has_line(bytes: Seq<u8>) -> bool {
    exists|at: int| is_line_end(bytes, at)
}

/// Where the first newline of `bytes` stands.
pub open spec fn line_end(bytes: Seq<u8>) -> int {
    choose|at: int| is_line_end(bytes, at)
}

/// The whole lines of `bytes` in their order, each without its newline.
pub open spec fn lines(bytes: Seq<u8>) -> Seq<Seq<u8>>
    decreases bytes.len(),
{
    if has_line(bytes) {
        seq![bytes.take(line_end(bytes))] + lines(bytes.skip(line_end(bytes) + 1))
    } else {
        Seq::empty()
    }
}

/// What follows the last newline of `bytes`: the start of a line not yet ended.
pub open spec fn remainder(bytes: Seq<u8>) -> Seq<u8>
    decreases bytes.len(),
{
    if has_line(bytes) {
        remainder(bytes.skip(line_end(bytes) + 1))
    } else {
        bytes
    }
}

/// The bytes of each vector of `vectors`.
pub open spec fn contents(vectors: Seq<Vec<u8>>) -> Seq<Seq<u8>> {
    Seq::new(vectors.len(), |i: int| vectors[i]@)
}

/// What is left after the last newline holds no newline.
pub proof fn lemma_remainder_has_no_line(bytes: Seq<u8>)
    ensures
        !has_line(remainder(bytes)),
    decreases bytes.len(),
{
    if has_line(bytes) {
        lemma_remainder_has_no_line(bytes.skip(line_end(bytes) + 1));
    }
}

/// Lines do not depend on how the stream was cut: the lines of `head` followed
/// by `tail` are the lines of `head`, then the lines of what `head` left
/// unfinished followed by `tail`; and the same bytes are left unfinished.
pub proof fn lemma_lines_of_pieces(head: Seq<u8>, tail: Seq<u8>)
    ensures
        lines(head + tail) == lines(head) + lines(remainder(head) + tail),
        remainder(head + tail) == remainder(remainder(head) + tail),
    decreases head.len(),
{
    if has_line(head) {
        let end = line_end(head);
        assert(is_line_end(head + tail, end));
        assert(line_end(head + tail) == end);
        assert((head + tail).take(end) == head.take(end));
        assert((head + tail).skip(end + 1) == head.skip(end + 1) + tail);
        lemma_lines_of_pieces(head.skip(end + 1), tail);
        assert(lines(head + tail) == seq![head.take(end)] + (lines(head.skip(end + 1)) + lines(
            remainder(head) + tail,
        )));
        assert(lines(head + tail) == lines(head) + lines(remainder(head) + tail));
    } else {
        assert(lines(head) + lines(head + tail) == lines(head + tail));
    }
}

/// The bytes of a stream that have come in and do not yet end in a newline.
pub struct LineBuffer {
    pending: Vec<u8>,
}

impl LineBuffer {
    /// The bytes of the line that has begun.
    pub closed spec fn view(&self) -> Seq<u8> {
        self.pending@
    }

    /// What holds of every buffer: the bytes it keeps hold no newline.
    #[verifier::type_invariant]
    pub open spec fn well_formed(&self) -> bool {
        !has_line(self@)
    }

    /// A buffer with nothing in it.
    pub fn new() -> (buffer: Self)
        ensures
            buffer@ == Seq::<u8>::empty(),
    {
        LineBuffer { pending: Vec::new() }
    }

    /// Takes in `data` and hands out the lines that are whole by now, in their
    /// order and without their newlines; the rest is kept for later.
    pub fn feed(&mut self, data: &[u8]) -> (whole: Vec<Vec<u8>>)
        ensures
            contents(whole@) == lines(old(self)@ + data@),
            final(self)@ == remainder(old(self)@ + data@),
    {
        let ghost all = self@ + data@;
        let mut bytes = Vec::new();
        core::mem::swap(&mut self.pending, &mut bytes);
        let mut k: usize = 0;
        while k < data.len()
            invariant
                k <= data.len(),
                bytes@ == all.take(all.len() - data.len() + k),
                all.len() >= data.len(),
                all.skip(all.len() - data.len()) == data@,
            decreases data.len() - k,
        {
            bytes.push(data[k]);
            k += 1;
        }
        assert(bytes@ == all);
        let mut whole: Vec<Vec<u8>> = Vec::new();
        let mut start: usize = 0;
        let mut i: usize = 0;
        while i < bytes.len()
            invariant
                start <= i <= bytes.len(),
                bytes@ == all,
                lines(all) == contents(whole@) + lines(all.skip(start as int)),
                remainder(all) == remainder(all.skip(start as int)),
                forall|j: int| start <= j < i ==> all[j] != NEWLINE,
            decreases bytes.len() - i,
        {
            if bytes[i] == NEWLINE {
                let line = slice_to_vec(slice_subrange(bytes.as_slice(), start, i));
                proof {
                    let rest = all.skip(start as int);
                    assert(is_line_end(rest, i - start));
                    assert(line_end(rest) == i - start);
                    assert(rest.take(i - start) == line@);
                    assert(rest.skip(i - start + 1) == all.skip(i + 1));
                    assert(contents(whole@.push(line)) == contents(whole@) + seq![line@]);
                }
                whole.push(line);
                start = i + 1;
            }
            i += 1;
        }
        let rest = slice_to_vec(slice_subrange(bytes.as_slice(), start, bytes.len()));
        proof {
            let tail = all.skip(start as int);
            assert(rest@ == tail);
            assert(!has_line(tail)) by {
                if has_line(tail) {
                    let at = line_end(tail);
                    assert(all[start + at] == NEWLINE);
                }
            }
            assert(contents(whole@) + Seq::<Seq<u8>>::empty() == contents(whole@));
        }
        self.pending = rest;
        whole
    }
}

} // verus!
