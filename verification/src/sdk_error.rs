//! Errors of the worker SDK, the structured form of a remote invocation
//! failure, and the handle that removes a registered trigger.

use vstd::prelude::*;
use crate::text::push_str;

verus! {

/// Errors returned by the SDK.
#[derive(Debug, Clone)]
pub enum Error {
    NotConnected,
    Timeout,
    Runtime(String),
    Remote { code: String, message: String, stacktrace: Option<String> },
    Handler(String),
    Serde(String),
    WebSocket(String),
}

/// The text of an error.
pub open spec fn error_text(e: Error) -> Seq<char> {
    match e {
        Error::NotConnected => "iii is not connected"@,
        Error::Timeout => "invocation timed out"@,
        Error::Runtime(s) => "runtime error: "@ + s@,
        Error::Remote { code, message, .. } => "remote error ("@ + code@ + "): "@ + message@,
        Error::Handler(s) => "handler error: "@ + s@,
        Error::Serde(s) => "serialization error: "@ + s@,
        Error::WebSocket(s) => "websocket error: "@ + s@,
    }
}

/// A remote invocation failure in structured form.
#[derive(Debug, Clone, PartialEq, Eq)]
pub struct InvocationError {
    pub code: String,
    pub message: String,
    pub function_id: Option<String>,
    pub stacktrace: Option<String>,
}

impl InvocationError {
    /// The failure as text: `{code}: {message}`.
    pub fn message(&self) -> (s: String)
        ensures
            s@ == self.code@ + ": "@ + self.message@,
    {
        let mut s = String::new();
        push_str(&mut s, self.code.as_str());
        push_str(&mut s, ": ");
        push_str(&mut s, self.message.as_str());
        proof {
            assert(Seq::<char>::empty() + self.code@ =~= self.code@);
        }
        s
    }
}

impl Error {
    /// The error as text.
    pub fn message(&self) -> (s: String)
        ensures
            s@ == error_text(*self),
    {
        let mut s = String::new();
        match self {
            Error::NotConnected => push_str(&mut s, "iii is not connected"),
            Error::Timeout => push_str(&mut s, "invocation timed out"),
            Error::Runtime(t) => {
                push_str(&mut s, "runtime error: ");
                push_str(&mut s, t.as_str());
            },
            Error::Remote { code, message, .. } => {
                push_str(&mut s, "remote error (");
                push_str(&mut s, code.as_str());
                push_str(&mut s, "): ");
                push_str(&mut s, message.as_str());
            },
            Error::Handler(t) => {
                push_str(&mut s, "handler error: ");
                push_str(&mut s, t.as_str());
            },
            Error::Serde(t) => {
                push_str(&mut s, "serialization error: ");
                push_str(&mut s, t.as_str());
            },
            Error::WebSocket(t) => {
                push_str(&mut s, "websocket error: ");
                push_str(&mut s, t.as_str());
            },
        }
        proof {
            assert(Seq::<char>::empty() + error_text(*self) =~= error_text(*self));
        }
        s
    }

    /// The structured form of a remote invocation failure; `None` for any
    /// other error. The wire payload carries no function id.
    pub fn invocation_error(&self) -> (r: Option<InvocationError>)
        ensures
            r is Some <==> self is Remote,
            r matches Some(inv) ==> (self matches Error::Remote { code, message, stacktrace }
                && inv.code@ == code@ && inv.message@ == message@ && inv.function_id is None
                && inv.stacktrace == stacktrace),
    {
        match self {
            Error::Remote { code, message, stacktrace } => Some(
                InvocationError {
                    code: code.clone(),
                    message: message.clone(),
                    function_id: None,
                    stacktrace: match stacktrace {
                        Some(t) => Some(t.clone()),
                        None => None,
                    },
                },
            ),
            _ => None,
        }
    }
}

impl From<String> for Error {
    fn from(msg: String) -> (e: Self) {
        Error::Handler(msg)
    }
}

impl vstd::std_specs::convert::FromSpecImpl<String> for Error {
    open spec fn obeys_from_spec() -> bool {
        true
    }

    open spec fn from_spec(msg: String) -> Self {
        Error::Handler(msg)
    }
}

/// Handle of a registered trigger; `unregister` removes it from the
/// engine by running the removal it was created with.
#[derive(Clone)]
pub struct Trigger<F: Fn() + Send + Sync> {
    unregister_fn: std::sync::Arc<F>,
}

impl<F: Fn() + Send + Sync> Trigger<F> {
    pub fn new(unregister_fn: std::sync::Arc<F>) -> (t: Self)
        ensures
            t.removal() == *unregister_fn,
    {
        Trigger { unregister_fn }
    }

    /// The removal this handle runs.
    pub closed spec fn removal(&self) -> F {
        *self.unregister_fn
    }

    /// Removes the trigger: runs the removal once.
    pub fn unregister(&self)
        requires
            call_requires(self.removal(), ()),
        ensures
            call_ensures(self.removal(), (), ()),
    {
        let f: &F = &self.unregister_fn;
        f();
    }
}

} // verus!
