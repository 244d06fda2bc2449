//! The fetch engine: an ordered list of sources, a sticky cursor over it, and
//! a bounded number of retries on each source before the next is tried.
//!
//! The engine makes no call itself. [`Network::request_file`] names the first
//! call of a request, and [`Network::resume`] takes the reply to a call and
//! names the next one or ends the request. The caller performs each call
//! and hands the reply back, one request at a time.

use core::ops::Range;
use vstd::prelude::*;
use vstd::string::*;
use vstd::utf8::*;
use crate::error::{BusinessError, BusinessResult, DownloadResult};
use crate::source::{registry, source_views, sources_of, url_bytes, Source, SourceView};

verus! {

/// What the engine reads of the client's configuration.
#[derive(Debug, PartialEq, Eq)]
pub struct GlobalConfig {
    /// The endpoints, in the order in which they are to be tried.
    pub urls: Vec<String>,
    /// How often a failed call is repeated on one source: each source gets
    /// `http_retries + 1` attempts.
    pub http_retries: u32,
}

/// One call that the engine asks for.
#[derive(Clone, Copy, Debug, PartialEq, Eq, Structural)]
pub struct Attempt {
    /// The position of the source in the engine's list.
    pub source: usize,
    /// How many attempts on that source went before this one.
    pub number: u32,
}

/// What the caller is to do next.
#[derive(Debug)]
pub enum Step<T> {
    /// Make this call and hand the reply to [`Network::resume`].
    Call(Attempt),
    /// The request is over.
    Done(BusinessResult<T>),
}

/// A reply to one call, with its messages as text.
pub enum Reply<T> {
    Success(T),
    /// The remote side refused the request.
    Business(Seq<char>),
    /// The call did not get through.
    Transport(Seq<char>),
}

/// The mathematical content of a [`Step`].
pub enum Outcome<T> {
    Call { source: nat, number: nat },
    Success(T),
    Failure(Seq<char>),
}

impl<T> View for Step<T> {
    type V = Outcome<T>;

    open spec fn view(&self) -> Outcome<T> {
        match *self {
            Step::Call(attempt) => Outcome::Call {
                source: attempt.source as nat,
                number: attempt.number as nat,
            },
            Step::Done(Ok(payload)) => Outcome::Success(payload),
            Step::Done(Err(e)) => Outcome::Failure(e.reason@),
        }
    }
}

/// The view of what a call came to.
pub open spec fn reply_of<T>(result: DownloadResult<T>) -> Reply<T> {
    match result {
        Ok(Ok(payload)) => Reply::Success(payload),
        Ok(Err(e)) => Reply::Business(e.reason@),
        Err(e) => Reply::Transport(e.message@),
    }
}

/// The reason given when a request finds every source skipped already.
pub open spec fn no_source_text() -> Seq<char> {
    "no source is left to try"@
}

/// The first step of a request: a first attempt on the first source that is
/// not skipped, or a failure where none is left.
pub open spec fn first_step<T>(len: nat, skip: nat) -> Outcome<T> {
    if skip < len {
        Outcome::Call { source: skip, number: 0 }
    } else {
        Outcome::Failure(no_source_text())
    }
}

/// The cursor after a reply. It moves, by one, exactly when the reply is a
/// transport failure of the last attempt that the current source is owed.
pub open spec fn next_skip<T>(
    len: nat,
    retries: nat,
    skip: nat,
    source: nat,
    number: nat,
    reply: Reply<T>,
) -> nat {
    if reply is Transport && source == skip && skip < len && number >= retries {
        skip + 1
    } else {
        skip
    }
}

/// The step after a reply to the attempt `number` on `source`.
///
/// A success or a business failure ends the request with just that. After a
/// transport failure the current source is tried again while it has
/// attempts left; then the cursor moves on and the next source gets its
/// first attempt; when no source is left the request fails with the
/// message of this last transport failure. A transport failure of a source
/// that the cursor has passed already leads straight to the current one.
pub open spec fn next_step<T>(
    len: nat,
    retries: nat,
    skip: nat,
    source: nat,
    number: nat,
    reply: Reply<T>,
) -> Outcome<T> {
    match reply {
        Reply::Success(payload) => Outcome::Success(payload),
        Reply::Business(reason) => Outcome::Failure(reason),
        Reply::Transport(message) => {
            if source == skip && skip < len && number < retries {
                Outcome::Call { source, number: number + 1 }
            } else if next_skip(len, retries, skip, source, number, reply) < len {
                Outcome::Call {
                    source: next_skip(len, retries, skip, source, number, reply),
                    number: 0,
                }
            } else {
                Outcome::Failure(message)
            }
        },
    }
}

/// `String::from_utf8` of the standard library: the text that the bytes
/// encode, or nothing where they are not UTF-8. Trusted.
#[verifier::external_body]
fn text_of(bytes: Vec<u8>) -> (text: Option<String>)
    ensures
        text is Some <==> valid_utf8(bytes@),
        text is Some ==> text->0@ == decode_utf8(bytes@),
{
    String::from_utf8(bytes).ok()
}

/// The reason given when fetched bytes are no text.
pub open spec fn not_text_reason(description: Seq<char>) -> Seq<char> {
    "network data is not UTF-8 text ("@ + description + ")"@
}

/// The engine's state for one session.
pub struct Network {
    sources: Vec<Source>,
    skip_sources: usize,
    retries: u32,
}

impl Network {
    /// The sources, in fallback order.
    pub closed spec fn source_list(&self) -> Seq<SourceView> {
        source_views(self.sources@)
    }

    /// How many leading sources are passed over.
    pub closed spec fn skip_count(&self) -> nat {
        self.skip_sources as nat
    }

    /// How often a failed call is repeated on one source.
    pub closed spec fn retry_budget(&self) -> nat {
        self.retries as nat
    }

    /// Sets the engine up for the configured sources, with nothing skipped.
    pub fn new(config: &GlobalConfig) -> (network: BusinessResult<Network>)
        ensures
            network is Ok,
            network->Ok_0.source_list() == sources_of(url_bytes(config.urls@)),
            network->Ok_0.skip_count() == 0,
            network->Ok_0.retry_budget() == config.http_retries,
    {
        Ok(
            Network {
                sources: registry(&config.urls),
                skip_sources: 0,
                retries: config.http_retries,
            },
        )
    }

    pub fn sources(&self) -> (sources: &Vec<Source>)
        ensures
            source_views(sources@) == self.source_list(),
    {
        &self.sources
    }

    pub fn skip_sources(&self) -> (skip: usize)
        ensures
            skip == self.skip_count(),
    {
        self.skip_sources
    }

    pub fn http_retries(&self) -> (retries: u32)
        ensures
            retries == self.retry_budget(),
    {
        self.retries
    }

    /// Starts a request for the bytes `range` of a file. The range may be
    /// empty; its end is never before its start.
    pub fn request_file<T>(&self, range: &Range<u64>) -> (step: Step<T>)
        requires
            range.start <= range.end,
        ensures
            step@ == first_step::<T>(self.source_list().len(), self.skip_count()),
    {
        if self.skip_sources < self.sources.len() {
            Step::Call(Attempt { source: self.skip_sources, number: 0 })
        } else {
            Step::Done(Err(BusinessError::new("no source is left to try".to_owned())))
        }
    }

    /// Takes the reply to `attempt` and says how the request goes on.
    pub fn resume<T>(&mut self, attempt: Attempt, reply: DownloadResult<T>) -> (step: Step<T>)
        ensures
            step@ == next_step(
                old(self).source_list().len(),
                old(self).retry_budget(),
                old(self).skip_count(),
                attempt.source as nat,
                attempt.number as nat,
                reply_of(reply),
            ),
            final(self).skip_count() == next_skip(
                old(self).source_list().len(),
                old(self).retry_budget(),
                old(self).skip_count(),
                attempt.source as nat,
                attempt.number as nat,
                reply_of(reply),
            ),
            final(self).skip_count() >= old(self).skip_count(),
            final(self).source_list() == old(self).source_list(),
            final(self).retry_budget() == old(self).retry_budget(),
    {
        match reply {
            Ok(answer) => Step::Done(answer),
            Err(failure) => {
                let current = attempt.source == self.skip_sources && self.skip_sources
                    < self.sources.len();
                if current && attempt.number < self.retries {
                    Step::Call(Attempt { source: attempt.source, number: attempt.number + 1 })
                } else {
                    if current {
                        self.skip_sources = self.skip_sources + 1;
                    }
                    if self.skip_sources < self.sources.len() {
                        Step::Call(Attempt { source: self.skip_sources, number: 0 })
                    } else {
                        Step::Done(Err(BusinessError::new(failure.message)))
                    }
                }
            },
        }
    }

    /// Gives the current source up, for a caller that found it bad by means
    /// of its own.
    pub fn advance_source(&mut self)
        requires
            old(self).skip_count() < usize::MAX,
        ensures
            final(self).skip_count() == old(self).skip_count() + 1,
            final(self).source_list() == old(self).source_list(),
            final(self).retry_budget() == old(self).retry_budget(),
    {
        self.skip_sources = self.skip_sources + 1;
    }

    /// Turns the outcome of a request into text. A failed request stays as
    /// it is; bytes that are not UTF-8 become a business failure that names
    /// `description`.
    pub fn request_text(fetched: BusinessResult<Vec<u8>>, description: &str) -> (text:
        BusinessResult<String>)
        ensures
            match fetched {
                Ok(bytes) => if valid_utf8(bytes@) {
                    text is Ok && text->Ok_0@ == decode_utf8(bytes@)
                } else {
                    text is Err && text->Err_0.reason@ == not_text_reason(description@)
                },
                Err(e) => text is Err && text->Err_0 == e,
            },
    {
        match fetched {
            Ok(bytes) => match text_of(bytes) {
                Some(text) => Ok(text),
                None => {
                    let mut reason = "network data is not UTF-8 text (".to_owned();
                    reason.append(description);
                    reason.append(")");
                    Err(BusinessError::new(reason))
                },
            },
            Err(e) => Err(e),
        }
    }
}

} // verus!
