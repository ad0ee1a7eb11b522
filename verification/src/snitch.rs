//! An incremental scanner over a byte stream: bytes arrive in chunks, the
//! bytes received so far are decoded (lossily) as UTF-8 and searched with a
//! pattern, and each match is reported once, after which the matched prefix
//! is dropped. Reading is left to the caller, who reports each read as a
//! [`ReadEvent`].

use vstd::prelude::*;
use vstd::utf8::{decode_utf8, valid_utf8, decode_utf8_encode_utf8};
use crate::pattern::{Group, Pattern, regex_captures};

verus! {

/// What `String::from_utf8_lossy` makes of `bytes`.
pub uninterp spec fn utf8_lossy(bytes: Seq<u8>) -> Seq<char>;

/// `String::from_utf8_lossy`, made owned: the contract claims the named
/// result and, as the documentation of `from_utf8_lossy` states, that valid
/// UTF-8 is decoded unchanged.
#[verifier::external_body]
fn decode_lossy(bytes: &[u8]) -> (s: String)
    ensures
        s@ == utf8_lossy(bytes@),
        valid_utf8(bytes@) ==> s@ == decode_utf8(bytes@),
{
    String::from_utf8_lossy(bytes).into_owned()
}

/// The outcome of one attempt to read from the stream.
pub enum ReadEvent {
    /// These bytes were read; none means the end of the stream.
    Data(Vec<u8>),
    /// The read was interrupted and may be retried.
    Interrupted,
    /// The read failed.
    Failed,
}

/// A match found by the scanner: the text decoded from all bytes received
/// up to the match, and the pattern that matches it.
pub struct SnitchResult {
    value: String,
    pattern: Pattern,
}

/// The mathematical value of a [`SnitchResult`].
pub ghost struct SnitchResultView {
    pub pattern: Seq<char>,
    pub value: Seq<char>,
}

impl View for SnitchResult {
    type V = SnitchResultView;

    closed spec fn view(&self) -> SnitchResultView {
        SnitchResultView { pattern: self.pattern@, value: self.value@ }
    }
}

impl SnitchResult {
    /// The pattern matches the value.
    #[verifier::type_invariant]
    spec fn holds_match(self) -> bool {
        regex_captures(self.pattern@, self.value@) is Some
    }

    /// The capture groups of the first match of the pattern in the value.
    pub fn snitch(&self) -> (r: Vec<Option<Group>>)
        ensures
            regex_captures(self@.pattern, self@.value) is Some,
            r.deep_view() == regex_captures(self@.pattern, self@.value)->0,
    {
        proof {
            use_type_invariant(self);
        }
        match self.pattern.captures(self.value.as_str()) {
            Some(groups) => groups,
            None => Vec::new(),
        }
    }

    /// The text decoded from the bytes received up to the match.
    pub fn value(&self) -> (r: &String)
        ensures
            r@ == self@.value,
    {
        &self.value
    }
}

/// What one step of the scanner yields.
pub enum SnitchStep {
    /// A match, reported once.
    Found(SnitchResult),
    /// No match yet: read on.
    Pending,
    /// The stream has ended or failed.
    Finished,
    /// The pattern matched, but the match ends past the bytes received (the
    /// lossy decoding of invalid UTF-8 is longer than the bytes it stands
    /// for); the bytes are kept.
    Overrun,
}

/// The scanner's state: its pattern and the bytes received and not yet
/// consumed by a match.
pub struct Snitch {
    pattern: Pattern,
    buf: Vec<u8>,
}

/// The mathematical value of a [`Snitch`].
pub ghost struct SnitchView {
    pub pattern: Seq<char>,
    pub pending: Seq<u8>,
}

impl View for Snitch {
    type V = SnitchView;

    closed spec fn view(&self) -> SnitchView {
        SnitchView { pattern: self.pattern@, pending: self.buf@ }
    }
}

/// A scanner for `pattern` that has received nothing yet.
pub fn snitch(pattern: Pattern) -> (s: Snitch)
    ensures
        s@.pattern == pattern@,
        s@.pending == Seq::<u8>::empty(),
{
    Snitch { pattern, buf: Vec::new() }
}

/// The byte offset at which the first match of `pattern` in the lossy
/// decoding of `bytes` ends.
pub open spec fn match_end(pattern: Seq<char>, bytes: Seq<u8>) -> usize {
    regex_captures(pattern, utf8_lossy(bytes))->0[0]->0.end
}

impl Snitch {
    /// Takes in the outcome of one read. A non-empty chunk is added to the
    /// pending bytes; when the pattern then matches their lossy decoding, the
    /// match is reported and the bytes up to its end are dropped. An empty
    /// chunk or a failed read finishes the scan; an interrupted read changes
    /// nothing.
    pub fn step(&mut self, event: ReadEvent) -> (r: SnitchStep)
        ensures
            final(self)@.pattern == old(self)@.pattern,
            match event {
                ReadEvent::Interrupted => r is Pending && final(self)@ == old(self)@,
                ReadEvent::Failed => r is Finished && final(self)@ == old(self)@,
                ReadEvent::Data(chunk) => if chunk@.len() == 0 {
                    r is Finished && final(self)@ == old(self)@
                } else {
                    let acc = old(self)@.pending + chunk@;
                    let value = utf8_lossy(acc);
                    let pattern = old(self)@.pattern;
                    match regex_captures(pattern, value) {
                        None => r is Pending && final(self)@.pending == acc,
                        Some(_) => {
                            &&& valid_utf8(acc) ==> match_end(pattern, acc) <= acc.len()
                            &&& if match_end(pattern, acc) <= acc.len() {
                                &&& r matches SnitchStep::Found(res) && res@.value == value
                                    && res@.pattern == pattern
                                &&& final(self)@.pending == acc.skip(
                                    match_end(pattern, acc) as int,
                                )
                            } else {
                                r is Overrun && final(self)@.pending == acc
                            }
                        },
                    }
                },
            },
    {
        match event {
            ReadEvent::Interrupted => SnitchStep::Pending,
            ReadEvent::Failed => SnitchStep::Finished,
            ReadEvent::Data(chunk) => {
                if chunk.len() == 0 {
                    return SnitchStep::Finished;
                }
                let mut chunk = chunk;
                self.buf.append(&mut chunk);
                let value = decode_lossy(self.buf.as_slice());
                match self.pattern.captures(value.as_str()) {
                    None => SnitchStep::Pending,
                    Some(groups) => {
                        let end = match &groups[0] {
                            Some(g) => g.end,
                            None => 0,
                        };
                        assert(end == match_end(self.pattern@, self.buf@));
                        proof {
                            if valid_utf8(self.buf@) {
                                decode_utf8_encode_utf8(self.buf@);
                            }
                        }
                        if end <= self.buf.len() {
                            let rest = self.buf.split_off(end);
                            self.buf = rest;
                            let result = SnitchResult { value, pattern: self.pattern.duplicate() };
                            SnitchStep::Found(result)
                        } else {
                            SnitchStep::Overrun
                        }
                    },
                }
            },
        }
    }
}

} // verus!
