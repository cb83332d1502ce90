//! Payment addresses in a line, and what the relay makes of them.

use vstd::prelude::*;
use vstd::slice::slice_to_vec;
use vstd::string::StringSliceAdditionalSpecFns;

verus! {

/// The address that payments are sent to instead.
pub const TONY_ADDRESS: &'static str = "7YWHMfk9JZe0LM0g1ZauHuiSxhI";

/// What looks like a payment address: a 7 and 25 to 34 more letters or
/// digits, between word boundaries.
pub const ADDRESS_PATTERN: &'static str = r"\b7[a-zA-Z0-9]{25,34}\b";

/// A space.
pub const SPACE: u8 = 0x20;

/// A newline.
pub const NEWLINE: u8 = 0x0A;

/// The matches of the regular expression `pattern` in `haystack`, from left
/// to right and without overlap, each as its start and the place after its
/// end; `None` where `pattern` is no regular expression.
pub uninterp spec fn regex_matches(pattern: Seq<char>, haystack: Seq<u8>) -> Option<
    Seq<(usize, usize)>,
>;

/// The spans lie in a text of `len` bytes, one after the other.
pub open spec fn in_order(spans: Seq<(usize, usize)>, len: int) -> bool {
    &&& forall|i: int| 0 <= i < spans.len() ==> (#[trigger] spans[i]).0 <= spans[i].1 <= len
    &&& forall|i: int, j: int|
        0 <= i < j < spans.len() ==> (#[trigger] spans[i]).1 <= (#[trigger] spans[j]).0
}

/// The spans that were found, as a sequence.
pub open spec fn found_spans(found: Option<Vec<(usize, usize)>>) -> Option<Seq<(usize, usize)>> {
    match found {
        Some(spans) => Some(spans@),
        None => None,
    }
}

/// `Regex::new` compiles the pattern and `Regex::find_iter` yields the
/// successive matches that do not overlap; of each, `start` and `end` are
/// handed on. A match starts no later than it ends and ends within the
/// haystack.
#[verifier::external_body]
fn find_all(pattern: &str, haystack: &[u8]) -> (found: Option<Vec<(usize, usize)>>)
    ensures
        found_spans(found) == regex_matches(pattern@, haystack@),
        found matches Some(spans) ==> in_order(spans@, haystack@.len() as int),
{
    match regex::bytes::Regex::new(pattern) {
        Ok(re) => Some(re.find_iter(haystack).map(|m| (m.start(), m.end())).collect()),
        Err(_) => None,
    }
}

/// The bytes of `input` from `start` to `end` stand alone: what precedes
/// them is the start of the input, a space or a newline, and what follows
/// them is the end of the input, a space or a newline.
pub open spec fn stands_alone(input: Seq<u8>, start: int, end: int) -> bool {
    &&& start == 0 || input[start - 1] == SPACE || input[start - 1] == NEWLINE
    &&& end == input.len() || input[end] == SPACE || input[end] == NEWLINE
}

/// What takes the place of the bytes from `start` to `end`: the relay's
/// address where they stand alone, and the bytes themselves where not.
pub open spec fn replacement(input: Seq<u8>, start: int, end: int) -> Seq<u8> {
    if stands_alone(input, start, end) {
        TONY_ADDRESS.spec_bytes()
    } else {
        input.subrange(start, end)
    }
}

/// Where the first `n` spans end: 0 for none.
pub open spec fn end_of(spans: Seq<(usize, usize)>, n: int) -> int {
    if n <= 0 {
        0
    } else {
        spans[n - 1].1 as int
    }
}

/// `input` up to the end of its `n`th span, with each span replaced.
pub open spec fn rewritten_to(input: Seq<u8>, spans: Seq<(usize, usize)>, n: int) -> Seq<u8>
    decreases n,
{
    if n <= 0 {
        Seq::empty()
    } else {
        rewritten_to(input, spans, n - 1) + input.subrange(
            end_of(spans, n - 1),
            spans[n - 1].0 as int,
        ) + replacement(input, spans[n - 1].0 as int, spans[n - 1].1 as int)
    }
}

/// `input` with each span replaced.
pub open spec fn rewritten(input: Seq<u8>, spans: Seq<(usize, usize)>) -> Seq<u8> {
    rewritten_to(input, spans, spans.len() as int) + input.skip(end_of(spans, spans.len() as int))
}

/// What the relay passes on for `input`.
pub open spec fn boguscoin_rewritten(input: Seq<u8>) -> Seq<u8> {
    match regex_matches(ADDRESS_PATTERN@, input) {
        Some(spans) => rewritten(input, spans),
        None => input,
    }
}

fn stands_alone_at(input: &[u8], start: usize, end: usize) -> (yes: bool)
    requires
        start <= end <= input.len(),
    ensures
        yes == stands_alone(input@, start as int, end as int),
{
    let before = start == 0 || input[start - 1] == SPACE || input[start - 1] == NEWLINE;
    let after = end == input.len() || input[end] == SPACE || input[end] == NEWLINE;
    before && after
}

fn append(out: &mut Vec<u8>, bytes: &[u8], from: usize, to: usize)
    requires
        from <= to <= bytes.len(),
    ensures
        final(out)@ == old(out)@ + bytes@.subrange(from as int, to as int),
{
    let mut i: usize = from;
    while i < to
        invariant
            from <= i <= to <= bytes.len(),
            out@ == old(out)@ + bytes@.subrange(from as int, i as int),
        decreases to - i,
    {
        out.push(bytes[i]);
        i += 1;
    }
}

/// Replaces in `input` each of `spans` that stands alone by the relay's
/// address, and leaves the rest as it is.
pub fn rewrite_matches(input: &[u8], spans: &[(usize, usize)]) -> (output: Vec<u8>)
    requires
        in_order(spans@, input@.len() as int),
    ensures
        output@ == rewritten(input@, spans@),
{
    let address = TONY_ADDRESS.as_bytes();
    let mut output: Vec<u8> = Vec::new();
    let mut last: usize = 0;
    let mut n: usize = 0;
    while n < spans.len()
        invariant
            n <= spans.len(),
            in_order(spans@, input@.len() as int),
            last == end_of(spans@, n as int),
            last <= input.len(),
            output@ == rewritten_to(input@, spans@, n as int),
            address@ == TONY_ADDRESS.spec_bytes(),
        decreases spans.len() - n,
    {
        let (start, end) = spans[n];
        proof {
            if n > 0 {
                assert(spans@[n - 1].1 <= spans@[n as int].0);
            }
        }
        append(&mut output, input, last, start);
        if stands_alone_at(input, start, end) {
            append(&mut output, address, 0, address.len());
            assert(address@.subrange(0, address.len() as int) == address@);
        } else {
            append(&mut output, input, start, end);
        }
        last = end;
        n += 1;
    }
    append(&mut output, input, last, input.len());
    output
}

/// Passes `input` on with the relay's address in place of each payment
/// address that stands alone.
pub fn rewrite_boguscoin(input: &[u8]) -> (output: Vec<u8>)
    ensures
        output@ == boguscoin_rewritten(input@),
{
    match find_all(ADDRESS_PATTERN, input) {
        Some(spans) => rewrite_matches(input, spans.as_slice()),
        None => slice_to_vec(input),
    }
}

/// A text in which nothing was found is passed on as it is.
pub proof fn lemma_nothing_found(input: Seq<u8>)
    ensures
        rewritten(input, Seq::empty()) == input,
{
    assert(rewritten_to(input, Seq::empty(), 0) + input.skip(0) == input);
}

/// Each span that was found makes up for its own length: a text with one span
/// comes out as what precedes the span, what replaces it, and what follows.
pub proof fn lemma_one_found(input: Seq<u8>, start: usize, end: usize)
    requires
        start <= end <= input.len(),
    ensures
        rewritten(input, seq![(start, end)]) == input.take(start as int) + replacement(
            input,
            start as int,
            end as int,
        ) + input.skip(end as int),
{
    let spans = seq![(start, end)];
    assert(rewritten_to(input, spans, 0) == Seq::<u8>::empty());
    assert(rewritten_to(input, spans, 1) == Seq::<u8>::empty() + input.subrange(0, start as int)
        + replacement(input, start as int, end as int));
    assert(Seq::<u8>::empty() + input.subrange(0, start as int) == input.take(start as int));
}

} // verus!
