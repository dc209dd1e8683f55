//! The retry policy of the sources' HTTP requests, as a state machine: the
//! caller sends, reports what came back, and does what the policy says
//! (read the body, wait, send again, or give up with an error).

use vstd::prelude::*;
use crate::source::SourceError;
use crate::text::{push_str, slice_chars, string_of, to_chars, to_string};

verus! {

broadcast use vstd::string::group_string_axioms;

/// What one attempt at a request came back with.
#[derive(Debug)]
pub enum Attempt {
    /// A response with a success status.
    Success,
    /// A response with another status: its code and how it is written
    /// (such as `503 Service Unavailable`).
    Status { code: u16, text: String },
    /// No response: the text of the error.
    Failed(String),
}

/// What the caller does next.
#[derive(Debug)]
pub enum RetryAction {
    /// Send the request.
    Send,
    /// Read the body of the response that succeeded.
    Read,
    /// Wait this many times the configured delay, then ask again.
    Wait { pauses: u32 },
    /// Give up with this error.
    Fail(SourceError),
}

/// The state of one request under the retry policy.
pub struct Retry {
    max_retries: usize,
    stop_on_not_found: bool,
    attempts: usize,
    last_error: Option<SourceError>,
}

/// The error given when every attempt failed without one to report.
pub open spec fn exhausted(e: SourceError) -> bool {
    e matches SourceError::Network(m) && m@ == "Max retries exceeded"@
}

impl Retry {
    /// No more attempts are made than allowed.
    #[verifier::type_invariant]
    spec fn within_limit(self) -> bool {
        self.attempts <= self.max_retries
    }

    /// The largest number of attempts.
    pub closed spec fn max_retries(self) -> usize {
        self.max_retries
    }

    /// Whether a 404 ends the request at once with `NotFound`.
    pub closed spec fn stop_on_not_found(self) -> bool {
        self.stop_on_not_found
    }

    /// The attempts made so far.
    pub closed spec fn attempts(self) -> usize {
        self.attempts
    }

    /// The error of the last failed attempt.
    pub closed spec fn last_error(self) -> Option<SourceError> {
        self.last_error
    }

    /// A request not yet sent.
    pub fn new(max_retries: usize, stop_on_not_found: bool) -> (r: Self)
        ensures
            r.max_retries() == max_retries,
            r.stop_on_not_found() == stop_on_not_found,
            r.attempts() == 0,
            r.last_error() is None,
    {
        Retry { max_retries, stop_on_not_found, attempts: 0, last_error: None }
    }

    /// Before an attempt: send while attempts are left, else give up with
    /// the last error (or `Max retries exceeded` where there was none).
    pub fn next(&mut self) -> (r: RetryAction)
        ensures
            final(self).max_retries() == old(self).max_retries(),
            final(self).stop_on_not_found() == old(self).stop_on_not_found(),
            final(self).attempts() == old(self).attempts(),
            old(self).attempts() < old(self).max_retries() ==> {
                &&& r is Send
                &&& final(self).last_error() == old(self).last_error()
            },
            old(self).attempts() >= old(self).max_retries() ==> {
                &&& final(self).last_error() is None
                &&& match old(self).last_error() {
                    Some(e) => r == RetryAction::Fail(e),
                    None => r matches RetryAction::Fail(e) && exhausted(e),
                }
            },
    {
        proof {
            use_type_invariant(&*self);
        }
        if self.attempts < self.max_retries {
            RetryAction::Send
        } else {
            let emptied = Retry {
                max_retries: self.max_retries,
                stop_on_not_found: self.stop_on_not_found,
                attempts: self.attempts,
                last_error: None,
            };
            let mut before = emptied;
            std::mem::swap(self, &mut before);
            match before.last_error {
                Some(e) => RetryAction::Fail(e),
                None => RetryAction::Fail(SourceError::Network(to_string("Max retries exceeded"))),
            }
        }
    }

    /// After an attempt: a success is read; a 429 is remembered as a rate
    /// limit and waited out twice; a 404, where it ends the request, gives
    /// `NotFound`; another status or a failure is remembered as a network
    /// error and waited out once.
    pub fn record(&mut self, attempt: Attempt) -> (r: RetryAction)
        requires
            old(self).attempts() < old(self).max_retries(),
        ensures
            final(self).max_retries() == old(self).max_retries(),
            final(self).stop_on_not_found() == old(self).stop_on_not_found(),
            final(self).attempts() == old(self).attempts() + 1,
            match attempt {
                Attempt::Success => r is Read && final(self).last_error() == old(self).last_error(),
                Attempt::Status { code, text } => if code == 429 {
                    &&& r == (RetryAction::Wait { pauses: 2 })
                    &&& final(self).last_error() == Some(SourceError::RateLimit { retry_after: None })
                } else if code == 404 && old(self).stop_on_not_found() {
                    &&& r == RetryAction::Fail(SourceError::NotFound)
                    &&& final(self).last_error() == old(self).last_error()
                } else {
                    &&& r == (RetryAction::Wait { pauses: 1 })
                    &&& final(self).last_error() matches Some(SourceError::Network(m))
                    &&& m@ == "HTTP "@ + text@
                },
                Attempt::Failed(m) => {
                    &&& r == (RetryAction::Wait { pauses: 1 })
                    &&& final(self).last_error() == Some(SourceError::Network(m))
                },
            },
    {
        self.attempts = self.attempts + 1;
        match attempt {
            Attempt::Success => RetryAction::Read,
            Attempt::Status { code, text } => {
                if code == 429 {
                    self.last_error = Some(SourceError::RateLimit { retry_after: None });
                    RetryAction::Wait { pauses: 2 }
                } else if code == 404 && self.stop_on_not_found {
                    RetryAction::Fail(SourceError::NotFound)
                } else {
                    let mut m = to_string("HTTP ");
                    push_str(&mut m, text.as_str());
                    self.last_error = Some(SourceError::Network(m));
                    RetryAction::Wait { pauses: 1 }
                }
            },
            Attempt::Failed(m) => {
                self.last_error = Some(SourceError::Network(m));
                RetryAction::Wait { pauses: 1 }
            },
        }
    }
}

/// How many bytes a char takes in UTF-8.
pub open spec fn utf8_len(c: char) -> nat {
    let n = c as u32;
    if n < 0x80 {
        1
    } else if n < 0x800 {
        2
    } else if n < 0x10000 {
        3
    } else {
        4
    }
}

/// The longest prefix of a text whose UTF-8 encoding takes at most `limit`
/// bytes.
pub open spec fn byte_prefix(s: Seq<char>, limit: nat) -> Seq<char>
    decreases s.len(),
{
    if s.len() == 0 || utf8_len(s[0]) > limit {
        Seq::empty()
    } else {
        seq![s[0]] + byte_prefix(s.drop_first(), (limit - utf8_len(s[0])) as nat)
    }
}

/// The head of a response body shown in a parse error: its longest prefix
/// of at most 200 bytes.
pub open spec fn body_head(body: Seq<char>) -> Seq<char> {
    byte_prefix(body, 200)
}

fn char_bytes(c: char) -> (r: usize)
    ensures
        r == utf8_len(c),
{
    let n = c as u32;
    if n < 0x80 {
        1
    } else if n < 0x800 {
        2
    } else if n < 0x10000 {
        3
    } else {
        4
    }
}

/// The error for a response body that does not parse: the parser's message
/// and the head of the body.
pub fn parse_failure(message: &str, body: &str) -> (r: SourceError)
    ensures
        r matches SourceError::Parse(m) && m@ == message@ + " (response: "@ + body_head(body@) + "...)"@,
{
    let cs = to_chars(body);
    let mut i: usize = 0;
    let mut used: usize = 0;
    assert(cs@.skip(0) == cs@);
    assert(cs@.take(0) + cs@ == cs@);
    while i < cs.len() && used + char_bytes(cs[i]) <= 200
        invariant
            0 <= i <= cs.len(),
            used <= 200,
            cs@ == body@,
            byte_prefix(cs@, 200) == cs@.take(i as int) + byte_prefix(cs@.skip(i as int), (200 - used) as nat),
        decreases cs.len() - i,
    {
        let k = char_bytes(cs[i]);
        let ghost rest = cs@.skip(i as int);
        assert(rest.drop_first() == cs@.skip(i + 1));
        assert(rest[0] == cs@[i as int]);
        assert(cs@.take(i + 1) == cs@.take(i as int) + seq![cs@[i as int]]);
        used = used + k;
        i = i + 1;
    }
    assert(byte_prefix(cs@.skip(i as int), (200 - used) as nat) == Seq::<char>::empty()) by {
        if i < cs.len() {
            assert(cs@.skip(i as int)[0] == cs@[i as int]);
        }
    }
    assert(cs@.take(i as int) + Seq::<char>::empty() == cs@.take(i as int));
    let head = slice_chars(cs.as_slice(), 0, i);
    assert(head@ == body_head(body@));
    let mut m = to_string(message);
    push_str(&mut m, " (response: ");
    push_str(&mut m, string_of(head.as_slice()).as_str());
    push_str(&mut m, "...)");
    SourceError::Parse(m)
}

} // verus!
