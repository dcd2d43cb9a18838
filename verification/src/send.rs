//! The decision logic of sending one request: serialize it, try the raw
//! send up to five times on stream-level failures, give up at once on a TLS
//! handshake failure, and parse whatever bytes came back.
//!
//! The caller performs the outside work (connect, handshake, write, read)
//! and feeds each outcome back as an event; this module decides what
//! happens next.

use vstd::prelude::*;

use crate::errors::Error;
use crate::http::{raw_to_response, response_of, Response};

verus! {

/// How many times the raw send is attempted before giving up.
pub const MAX_SEND_ATTEMPTS: u8 = 5;

/// What the caller observed while performing one attempt.
pub enum SendEvent {
    /// The whole response was read; here are its raw bytes.
    ResponseRead(Vec<u8>),
    /// Opening, writing or reading the anonymized stream failed.
    StreamFailure,
    /// The TLS handshake failed.
    TlsFailure,
}

/// What the caller must do next.
pub enum SendStep {
    /// Try the raw send once more.
    Retry,
    /// Give up with this error.
    Fail(Error),
    /// Hand this response to the caller.
    Deliver(Response),
}

/// One request's send session: counts the stream-level failures spent.
pub struct SendSession {
    /// Attempts that ended in a stream-level failure.
    pub failures: u8,
}

impl SendSession {
    /// Start a session: no attempt has failed yet.
    pub fn new() -> (r: SendSession)
        ensures
            r.failures == 0,
    {
        SendSession { failures: 0 }
    }

    /// Decide on the outcome of one attempt.
    ///
    /// A stream failure is retried until the attempt budget is spent, and
    /// then surfaces as no-response; a TLS handshake failure is never
    /// retried; response bytes are parsed, well-formed ones are delivered.
    pub fn on_event(&mut self, ev: SendEvent) -> (r: SendStep)
        requires
            old(self).failures < MAX_SEND_ATTEMPTS,
        ensures
            ev is StreamFailure ==> final(self).failures == old(self).failures + 1,
            !(ev is StreamFailure) ==> final(self).failures == old(self).failures,
            ev is StreamFailure && old(self).failures + 1 < MAX_SEND_ATTEMPTS ==> r is Retry,
            ev is StreamFailure && old(self).failures + 1 == MAX_SEND_ATTEMPTS ==> (r matches
                SendStep::Fail(e) && e is NoResponse),
            ev is TlsFailure ==> (r matches SendStep::Fail(e) && e is NetworkError),
            ev matches SendEvent::ResponseRead(raw) ==> (response_of(raw@) is Some ==> (r matches
                SendStep::Deliver(resp) && {
                let m = response_of(raw@).unwrap();
                &&& resp.version == m.version
                &&& resp.status as int == m.status
                &&& crate::http::headers_model(resp.headers@) == m.headers
                &&& resp.body@ == m.body
            })),
            ev matches SendEvent::ResponseRead(raw) ==> (response_of(raw@) is None ==> (r matches
                SendStep::Fail(e) && e matches Error::InvalidResponse(_))),
    {
        match ev {
            SendEvent::StreamFailure => {
                self.failures = self.failures + 1;
                if self.failures < MAX_SEND_ATTEMPTS {
                    SendStep::Retry
                } else {
                    SendStep::Fail(Error::NoResponse)
                }
            },
            SendEvent::TlsFailure => SendStep::Fail(Error::NetworkError),
            SendEvent::ResponseRead(raw) => {
                match raw_to_response(raw.as_slice()) {
                    Ok(resp) => SendStep::Deliver(resp),
                    Err(e) => SendStep::Fail(e),
                }
            },
        }
    }
}

} // verus!
