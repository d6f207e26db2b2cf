//! Stand-ins for a transport that must never be reached.

use crate::error::{ErrorKind, VcrError};
use crate::http::LiveRequest;
use vstd::prelude::*;
use vstd::string::*;

verus! {

/// The text that names a request in a refusal.
pub open spec fn attempted(message: Seq<char>, method: Seq<char>, url: Seq<char>) -> Seq<char> {
    message + " Attempted request: "@ + method + " "@ + url
}

/// A transport that refuses every request with an error.
#[derive(Debug, Clone)]
pub struct NoOpClient {
    error_message: String,
}

impl NoOpClient {
    /// The message that every refusal begins with.
    pub closed spec fn message(&self) -> Seq<char> {
        self.error_message@
    }

    /// A client with the standard message.
    pub fn new() -> (c: Self)
        ensures
            c.message()
                == "NoOpClient: Real HTTP requests are not allowed. This indicates a VCR configuration issue - requests should be replayed from cassette."@,
    {
        NoOpClient {
            error_message: String::from_str(
                "NoOpClient: Real HTTP requests are not allowed. This indicates a VCR configuration issue - requests should be replayed from cassette.",
            ),
        }
    }

    /// A client with a message of the caller.
    pub fn with_message(message: &str) -> (c: Self)
        ensures
            c.message() == message@,
    {
        NoOpClient { error_message: String::from_str(message) }
    }

    /// A client that panics in place of returning an error.
    pub fn panicking() -> (c: PanickingNoOpClient)
        ensures
            c.message()
                == "PanickingNoOpClient: Unexpected HTTP request detected! This should not happen in VCR replay mode."@,
    {
        PanickingNoOpClient::new()
    }

    /// The error with which a request is refused.
    pub fn send(&self, req: &LiveRequest) -> (e: VcrError)
        ensures
            e.kind == ErrorKind::Transport,
            e.status == 500,
            e.message@ == attempted(self.message(), req@.method, req@.url),
    {
        let mut message = self.error_message.clone();
        message.append(" Attempted request: ");
        message.append(req.method.as_str());
        message.append(" ");
        message.append(req.url.as_str());
        assert(message@ =~= attempted(self.message(), req@.method, req@.url));
        VcrError::new(ErrorKind::Transport, 500, message)
    }
}

impl Default for NoOpClient {
    fn default() -> (c: Self)
        ensures
            c.message()
                == "NoOpClient: Real HTTP requests are not allowed. This indicates a VCR configuration issue - requests should be replayed from cassette."@,
    {
        NoOpClient::new()
    }
}

/// A transport that refuses every request by panicking; the library only
/// words the panic.
#[derive(Debug, Clone)]
pub struct PanickingNoOpClient {
    panic_message: String,
}

impl PanickingNoOpClient {
    /// The message that every panic begins with.
    pub closed spec fn message(&self) -> Seq<char> {
        self.panic_message@
    }

    /// A client with the standard message.
    pub fn new() -> (c: Self)
        ensures
            c.message()
                == "PanickingNoOpClient: Unexpected HTTP request detected! This should not happen in VCR replay mode."@,
    {
        PanickingNoOpClient {
            panic_message: String::from_str(
                "PanickingNoOpClient: Unexpected HTTP request detected! This should not happen in VCR replay mode.",
            ),
        }
    }

    /// A client with a message of the caller.
    pub fn with_message(message: &str) -> (c: Self)
        ensures
            c.message() == message@,
    {
        PanickingNoOpClient { panic_message: String::from_str(message) }
    }

    /// The words of the panic for a request.
    pub fn panic_text(&self, req: &LiveRequest) -> (text: String)
        ensures
            text@ == attempted(self.message(), req@.method, req@.url)
                + " - Check your VCR configuration and cassette contents."@,
    {
        let mut message = self.panic_message.clone();
        message.append(" Attempted request: ");
        message.append(req.method.as_str());
        message.append(" ");
        message.append(req.url.as_str());
        message.append(" - Check your VCR configuration and cassette contents.");
        assert(message@ =~= attempted(self.message(), req@.method, req@.url)
            + " - Check your VCR configuration and cassette contents."@);
        message
    }
}

impl Default for PanickingNoOpClient {
    fn default() -> (c: Self)
        ensures
            c.message()
                == "PanickingNoOpClient: Unexpected HTTP request detected! This should not happen in VCR replay mode."@,
    {
        PanickingNoOpClient::new()
    }
}

} // verus!
