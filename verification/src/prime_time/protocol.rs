//! The questions and answers of the primality service.

use crate::prime_time::prime::{is_prime, prime};
use crate::text::{trim, trimmed};
use vstd::prelude::*;
use vstd::string::*;

verus! {

/// The one method there is.
pub const METHOD: &'static str = "isPrime";

/// A number of a question, as far as primality depends on it.
#[derive(Clone, Copy, Debug, PartialEq, Eq, Structural)]
pub enum Number {
    /// A whole number.
    Integer(i64),
    /// A number with a fractional part.
    Fraction,
}

impl Number {
    /// Whether the number is prime. A number with a fractional part is not.
    pub open spec fn is_prime(self) -> bool {
        match self {
            Number::Integer(n) => prime(n as int),
            Number::Fraction => false,
        }
    }
}

/// A question: a method, and a number if the question holds one that can be
/// worked with.
#[derive(Debug, PartialEq, Eq)]
pub struct Request {
    pub method: String,
    pub number: Option<Number>,
}

/// The answer to a question.
#[derive(Debug, PartialEq, Eq)]
pub struct Response {
    pub method: String,
    pub prime: bool,
}

/// The answer to what is no question.
#[derive(Debug, PartialEq, Eq)]
pub struct MalformedResponse {
    pub method: String,
    pub error: String,
}

impl Request {
    /// Whether the question asks for the one method there is.
    pub fn is_valid(&self) -> (ok: bool)
        ensures
            ok == (self.method@ == METHOD@),
    {
        self.method.as_str().eq(METHOD)
    }

    /// The number of the question.
    pub fn get_number(&self) -> (number: Option<Number>)
        ensures
            number == self.number,
    {
        self.number
    }
}

impl Response {
    /// The answer that says whether the number is prime.
    pub fn new(is_prime: bool) -> (response: Self)
        ensures
            response.method@ == METHOD@,
            response.prime == is_prime,
    {
        Self { method: String::from_str(METHOD), prime: is_prime }
    }
}

impl MalformedResponse {
    /// The answer that says that the question was none.
    pub fn new() -> (response: Self)
        ensures
            response.method@ == METHOD@,
            response.error@ == "malformed request"@,
    {
        Self { method: String::from_str(METHOD), error: String::from_str("malformed request") }
    }
}

/// What is sent back for one line.
#[derive(Debug, PartialEq, Eq)]
pub enum Reply {
    /// An answer; the connection stays open.
    Answer(Response),
    /// The line was no question; the connection is closed after this.
    Malformed(MalformedResponse),
}

/// A reply with its words as characters.
pub enum ReplyView {
    Answer { method: Seq<char>, prime: bool },
    Malformed { method: Seq<char>, error: Seq<char> },
}

impl Reply {
    /// The reply with its words as characters.
    pub open spec fn view(&self) -> ReplyView {
        match self {
            Reply::Answer(answer) => ReplyView::Answer {
                method: answer.method@,
                prime: answer.prime,
            },
            Reply::Malformed(answer) => ReplyView::Malformed {
                method: answer.method@,
                error: answer.error@,
            },
        }
    }
}

/// A line holds a question if it could be read, asks for `isPrime`, and has
/// a number that can be worked with.
pub open spec fn well_formed(request: Option<Request>) -> bool {
    request matches Some(question) && question.method@ == METHOD@ && question.number is Some
}

/// What a line is answered with: whether its number is prime where the line
/// holds a question, and nothing where it holds none.
pub open spec fn verdict(request: Option<Request>) -> Option<bool> {
    if well_formed(request) {
        Some(request->0.number->0.is_prime())
    } else {
        None
    }
}

/// The reply to a line: the verdict under the name of the method where the
/// line holds a question, and else the words that say that it holds none.
pub open spec fn reply_to(request: Option<Request>) -> ReplyView {
    match verdict(request) {
        Some(prime) => ReplyView::Answer { method: METHOD@, prime },
        None => ReplyView::Malformed { method: METHOD@, error: "malformed request"@ },
    }
}

/// Whether `number` is prime.
pub fn is_prime_number(number: Number) -> (yes: bool)
    ensures
        yes == number.is_prime(),
{
    match number {
        Number::Integer(n) => is_prime(n),
        Number::Fraction => false,
    }
}

/// The part of a line that is read as a question: the line without the
/// white space around it.
pub fn request_text(line: &str) -> (text: &str)
    ensures
        text@ == trimmed(line@),
{
    trim(line)
}

/// What is sent back for a line that was read as `request`, or could not be
/// read where `request` is `None`.
pub fn respond(request: Option<Request>) -> (reply: Reply)
    ensures
        reply@ == reply_to(request),
{
    match request {
        Some(question) => {
            if question.is_valid() {
                match question.get_number() {
                    Some(number) => Reply::Answer(Response::new(is_prime_number(number))),
                    None => Reply::Malformed(MalformedResponse::new()),
                }
            } else {
                Reply::Malformed(MalformedResponse::new())
            }
        },
        None => Reply::Malformed(MalformedResponse::new()),
    }
}

/// An answer as it goes on the wire: its text and a newline.
pub fn frame_response(json: String) -> (line: String)
    ensures
        line@ == json@ + "\n"@,
{
    let mut line = json;
    line.append("\n");
    line
}

} // verus!
