//! The failures that the instance manager reports. All of them are values.

use vstd::prelude::*;

verus! {

/// Why an operation on instances failed.
#[derive(Debug, PartialEq, Eq)]
pub enum Error {
    /// The container runtime could not be reached at all; holds what the transport said.
    RuntimeUnavailable(String),
    /// The runtime was reached and refused the request; holds what it said.
    RuntimeRequestFailed(String),
    /// The container does not follow the naming convention of instances.
    NotAnInstance,
    /// The runtime knows no instance of this name.
    InstanceNotFound(String),
    /// Starting, stopping or restarting the named instance failed; holds the name and the cause.
    OperationFailed(String, String),
    /// The instance is not running, so nothing can be forwarded to it.
    InstanceNotRunning,
    /// The instance does not publish its service port.
    PortNotPublished,
    /// A chunk of output was not valid UTF-8 where text was required.
    EncodingError,
    /// A forwarded connection or session failed after it was established.
    TunnelError(String),
    /// The runtime sent what its protocol rules out.
    ProtocolViolation,
}

/// The mathematical content of an [`Error`].
pub enum ErrorView {
    RuntimeUnavailable(Seq<char>),
    RuntimeRequestFailed(Seq<char>),
    NotAnInstance,
    InstanceNotFound(Seq<char>),
    OperationFailed(Seq<char>, Seq<char>),
    InstanceNotRunning,
    PortNotPublished,
    EncodingError,
    TunnelError(Seq<char>),
    ProtocolViolation,
}

impl View for Error {
    type V = ErrorView;

    open spec fn view(&self) -> ErrorView {
        match self {
            Error::RuntimeUnavailable(m) => ErrorView::RuntimeUnavailable(m@),
            Error::RuntimeRequestFailed(m) => ErrorView::RuntimeRequestFailed(m@),
            Error::NotAnInstance => ErrorView::NotAnInstance,
            Error::InstanceNotFound(n) => ErrorView::InstanceNotFound(n@),
            Error::OperationFailed(n, c) => ErrorView::OperationFailed(n@, c@),
            Error::InstanceNotRunning => ErrorView::InstanceNotRunning,
            Error::PortNotPublished => ErrorView::PortNotPublished,
            Error::EncodingError => ErrorView::EncodingError,
            Error::TunnelError(m) => ErrorView::TunnelError(m@),
            Error::ProtocolViolation => ErrorView::ProtocolViolation,
        }
    }
}

/// What an error says to the user.
pub open spec fn message_of(error: ErrorView) -> Seq<char> {
    match error {
        ErrorView::RuntimeUnavailable(m) => "container runtime unavailable: "@ + m,
        ErrorView::RuntimeRequestFailed(m) => "container runtime request failed: "@ + m,
        ErrorView::NotAnInstance => "container is not an instance"@,
        ErrorView::InstanceNotFound(n) => "instance not found: "@ + n,
        ErrorView::OperationFailed(n, c) => "operation failed for "@ + n + ": "@ + c,
        ErrorView::InstanceNotRunning => "instance is not running"@,
        ErrorView::PortNotPublished => "instance does not publish its service port"@,
        ErrorView::EncodingError => "output is not valid UTF-8"@,
        ErrorView::TunnelError(m) => "tunnel failed: "@ + m,
        ErrorView::ProtocolViolation => "runtime sent input on an output stream"@,
    }
}

impl Error {
    /// What the error says to the user: the kind of failure and, where there
    /// are any, the name and the cause that it carries.
    pub fn message(&self) -> (message: String)
        ensures
            message@ == message_of(self@),
    {
        match self {
            Error::RuntimeUnavailable(m) => {
                let mut message = String::from_str("container runtime unavailable: ");
                message.append(m.as_str());
                message
            },
            Error::RuntimeRequestFailed(m) => {
                let mut message = String::from_str("container runtime request failed: ");
                message.append(m.as_str());
                message
            },
            Error::NotAnInstance => String::from_str("container is not an instance"),
            Error::InstanceNotFound(n) => {
                let mut message = String::from_str("instance not found: ");
                message.append(n.as_str());
                message
            },
            Error::OperationFailed(n, c) => {
                let mut message = String::from_str("operation failed for ");
                message.append(n.as_str());
                message.append(": ");
                message.append(c.as_str());
                message
            },
            Error::InstanceNotRunning => String::from_str("instance is not running"),
            Error::PortNotPublished => String::from_str(
                "instance does not publish its service port",
            ),
            Error::EncodingError => String::from_str("output is not valid UTF-8"),
            Error::TunnelError(m) => {
                let mut message = String::from_str("tunnel failed: ");
                message.append(m.as_str());
                message
            },
            Error::ProtocolViolation => String::from_str("runtime sent input on an output stream"),
        }
    }
}

impl Clone for Error {
    fn clone(&self) -> (copy: Error)
        ensures
            copy == *self,
    {
        match self {
            Error::RuntimeUnavailable(m) => Error::RuntimeUnavailable(m.clone()),
            Error::RuntimeRequestFailed(m) => Error::RuntimeRequestFailed(m.clone()),
            Error::NotAnInstance => Error::NotAnInstance,
            Error::InstanceNotFound(n) => Error::InstanceNotFound(n.clone()),
            Error::OperationFailed(n, c) => Error::OperationFailed(n.clone(), c.clone()),
            Error::InstanceNotRunning => Error::InstanceNotRunning,
            Error::PortNotPublished => Error::PortNotPublished,
            Error::EncodingError => Error::EncodingError,
            Error::TunnelError(m) => Error::TunnelError(m.clone()),
            Error::ProtocolViolation => Error::ProtocolViolation,
        }
    }
}

} // verus!
