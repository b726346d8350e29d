//! The runtime's error type.

use crate::text::concat;
use vstd::prelude::*;
use vstd::string::StringExecFns;

verus! {

/// Errors reported by the runtime's checks and decisions.
#[derive(Debug, Clone, PartialEq, Eq)]
pub enum RuntimeError {
    InvalidImage(String),
    ContainerNotFound(String),
    MissingCommand,
    InvalidCommand(String),
    InvalidState(String),
    ImageMissing(String),
    Network(String),
    Kernel(String),
    Authorization(String),
    /// An operating-system call failed; holds its error text.
    Io(String),
}

/// Which variant an error is, with its text.
pub ghost enum ErrorView {
    InvalidImage(Seq<char>),
    ContainerNotFound(Seq<char>),
    MissingCommand,
    InvalidCommand(Seq<char>),
    InvalidState(Seq<char>),
    ImageMissing(Seq<char>),
    Network(Seq<char>),
    Kernel(Seq<char>),
    Authorization(Seq<char>),
    Io(Seq<char>),
}

impl View for RuntimeError {
    type V = ErrorView;

    open spec fn view(&self) -> ErrorView {
        match self {
            RuntimeError::InvalidImage(m) => ErrorView::InvalidImage(m@),
            RuntimeError::ContainerNotFound(m) => ErrorView::ContainerNotFound(m@),
            RuntimeError::MissingCommand => ErrorView::MissingCommand,
            RuntimeError::InvalidCommand(m) => ErrorView::InvalidCommand(m@),
            RuntimeError::InvalidState(m) => ErrorView::InvalidState(m@),
            RuntimeError::ImageMissing(m) => ErrorView::ImageMissing(m@),
            RuntimeError::Network(m) => ErrorView::Network(m@),
            RuntimeError::Kernel(m) => ErrorView::Kernel(m@),
            RuntimeError::Authorization(m) => ErrorView::Authorization(m@),
            RuntimeError::Io(m) => ErrorView::Io(m@),
        }
    }
}

/// The human-readable text of an error.
pub open spec fn error_message(e: ErrorView) -> Seq<char> {
    match e {
        ErrorView::InvalidImage(m) => "invalid image reference: "@ + m,
        ErrorView::ContainerNotFound(m) => "container not found: "@ + m,
        ErrorView::MissingCommand => "command is required to run container"@,
        ErrorView::InvalidCommand(m) => "invalid command: "@ + m,
        ErrorView::InvalidState(m) => "invalid container state: "@ + m,
        ErrorView::ImageMissing(m) => "image not found in store: "@ + m,
        ErrorView::Network(m) => "network error: "@ + m,
        ErrorView::Kernel(m) => "kernel version error: "@ + m,
        ErrorView::Authorization(m) => "runtime mutation mediation failed: "@ + m,
        ErrorView::Io(m) => "io error: "@ + m,
    }
}

impl RuntimeError {
    /// A copy of this error, variant and text.
    pub fn duplicate(&self) -> (r: RuntimeError)
        ensures
            r@ == self@,
    {
        match self {
            RuntimeError::InvalidImage(m) => RuntimeError::InvalidImage(m.clone()),
            RuntimeError::ContainerNotFound(m) => RuntimeError::ContainerNotFound(m.clone()),
            RuntimeError::MissingCommand => RuntimeError::MissingCommand,
            RuntimeError::InvalidCommand(m) => RuntimeError::InvalidCommand(m.clone()),
            RuntimeError::InvalidState(m) => RuntimeError::InvalidState(m.clone()),
            RuntimeError::ImageMissing(m) => RuntimeError::ImageMissing(m.clone()),
            RuntimeError::Network(m) => RuntimeError::Network(m.clone()),
            RuntimeError::Kernel(m) => RuntimeError::Kernel(m.clone()),
            RuntimeError::Authorization(m) => RuntimeError::Authorization(m.clone()),
            RuntimeError::Io(m) => RuntimeError::Io(m.clone()),
        }
    }

    /// The human-readable text of this error.
    pub fn message(&self) -> (r: String)
        ensures
            r@ == error_message(self@),
    {
        match self {
            RuntimeError::InvalidImage(m) => concat("invalid image reference: ", m.as_str()),
            RuntimeError::ContainerNotFound(m) => concat("container not found: ", m.as_str()),
            RuntimeError::MissingCommand => String::from_str("command is required to run container"),
            RuntimeError::InvalidCommand(m) => concat("invalid command: ", m.as_str()),
            RuntimeError::InvalidState(m) => concat("invalid container state: ", m.as_str()),
            RuntimeError::ImageMissing(m) => concat("image not found in store: ", m.as_str()),
            RuntimeError::Network(m) => concat("network error: ", m.as_str()),
            RuntimeError::Kernel(m) => concat("kernel version error: ", m.as_str()),
            RuntimeError::Authorization(m) => concat(
                "runtime mutation mediation failed: ",
                m.as_str(),
            ),
            RuntimeError::Io(m) => concat("io error: ", m.as_str()),
        }
    }
}

} // verus!
