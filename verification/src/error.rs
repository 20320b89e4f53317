//! The failures that the engine reports, one type for each component, and the
//! node-wide [`Error`] that every one of them can be folded into.

use vstd::prelude::*;
use vstd::string::StringExecFns;

verus! {

/// Why a byte stream is not a request.
#[derive(Clone, Copy, Debug, PartialEq, Eq, Structural)]
pub enum ParseError {
    /// The request line names a method other than GET, POST, DELETE or HEAD.
    UnsupportedMethod,
    /// The request line or a header line does not have the expected shape.
    Malformed,
    /// The stream ends before the announced body is complete.
    Truncated,
}

/// Why a module could not be turned into a running program.
#[derive(Debug)]
pub enum LoadError {
    /// The bytes are not a module that the execution engine accepts.
    InvalidModule(String),
    /// The engine could not set up the bridge between host and guest: it
    /// could not be started, or the module lacks the entry point for calls.
    EngineInit(String),
}

/// Why a call into a loaded program did not produce a result.
#[derive(Debug)]
pub enum ExecError {
    /// The module does not expose the operation.
    NotFound,
    /// The guest trapped or answered with an error of its own.
    GuestFailure(String),
    /// The engine itself failed.
    HostFailure(String),
}

/// Why the program registry could not serve a call.
#[derive(Debug)]
pub enum RegistryError {
    /// No program is loaded under the identifier.
    NotFound,
    /// The program is loaded and its call failed.
    Exec(ExecError),
}

/// No device is registered, so none can be selected.
#[derive(Clone, Copy, Debug, PartialEq, Eq, Structural)]
pub struct NoDevicesError;

/// The node-wide error: a message and the side on which the fault lies.
#[derive(Debug)]
pub enum Error {
    /// A failure reported by a collaborator, carried as its text.
    Custom(String),
    /// The input or the exchange with a peer was at fault.
    IO { message: String, inner: Option<String> },
    /// The node itself was at fault.
    Internal { message: String, inner: Option<String> },
}

impl Error {
    /// The text that [`Error::to_string`] produces.
    pub open spec fn text(&self) -> Seq<char> {
        match self {
            Error::Custom(t) => t@,
            Error::IO { message, .. } => "IO error: "@ + message@,
            Error::Internal { message, .. } => "Internal error: "@ + message@,
        }
    }

    /// The status code under which the error is reported to a peer: 400
    /// where the peer was at fault, 500 otherwise.
    pub open spec fn status(&self) -> u16 {
        match self {
            Error::IO { .. } => 400,
            _ => 500,
        }
    }

    /// An [`Error::IO`] with the given message and cause.
    pub fn io(message: &str, err: Option<String>) -> (e: Error)
        ensures
            e matches Error::IO { message: m, inner } && m@ == message@ && inner == err,
    {
        Error::IO { message: String::from_str(message), inner: err }
    }

    /// An [`Error::Internal`] with the given message and cause.
    pub fn internal(message: &str, err: Option<String>) -> (e: Error)
        ensures
            e matches Error::Internal { message: m, inner } && m@ == message@ && inner == err,
    {
        Error::Internal { message: String::from_str(message), inner: err }
    }

    /// The error as one line of text: the message, behind the name of the
    /// side at fault.
    pub fn to_string(&self) -> (s: String)
        ensures
            s@ == self.text(),
    {
        match self {
            Error::Custom(t) => t.clone(),
            Error::IO { message, .. } => String::from_str("IO error: ").concat(message.as_str()),
            Error::Internal { message, .. } => String::from_str("Internal error: ").concat(
                message.as_str(),
            ),
        }
    }

    /// The status code under which the error is reported to a peer.
    pub fn status_code(&self) -> (code: u16)
        ensures
            code == self.status(),
    {
        match self {
            Error::IO { .. } => 400,
            _ => 500,
        }
    }
}

impl Error {
    /// The message, without the name of the side at fault.
    pub open spec fn message(&self) -> Seq<char> {
        match self {
            Error::Custom(t) => t@,
            Error::IO { message, .. } => message@,
            Error::Internal { message, .. } => message@,
        }
    }

    /// What caused the error, where that is known.
    pub open spec fn cause(&self) -> Option<Seq<char>> {
        match self {
            Error::Custom(_) => None,
            Error::IO { inner, .. } => match inner {
                Some(t) => Some(t@),
                None => None,
            },
            Error::Internal { inner, .. } => match inner {
                Some(t) => Some(t@),
                None => None,
            },
        }
    }
}

impl ParseError {
    /// What the failure is called in a report.
    pub open spec fn message(&self) -> Seq<char> {
        match self {
            ParseError::UnsupportedMethod => "unsupported method"@,
            ParseError::Malformed => "malformed request"@,
            ParseError::Truncated => "truncated request"@,
        }
    }

    /// The failure as an error of the node: the peer's fault, in every case.
    pub fn to_error(self) -> (e: Error)
        ensures
            e is IO,
            e.message() == self.message(),
            e.cause() is None,
    {
        match self {
            ParseError::UnsupportedMethod => Error::io("unsupported method", None),
            ParseError::Malformed => Error::io("malformed request", None),
            ParseError::Truncated => Error::io("truncated request", None),
        }
    }
}

impl LoadError {
    /// The failure as an error of the node: what the engine said of the
    /// module, as it is, or a fault of the node where the engine could not
    /// be set up.
    pub fn to_error(self) -> (e: Error)
        ensures
            match self {
                LoadError::InvalidModule(m) => e matches Error::Custom(t) && t@ == m@,
                LoadError::EngineInit(m) => e is Internal && e.message()
                    == "wasmtime initialization failed"@ && e.cause() == Some(m@),
            },
    {
        match self {
            LoadError::InvalidModule(m) => Error::Custom(m),
            LoadError::EngineInit(m) => Error::internal("wasmtime initialization failed", Some(m)),
        }
    }
}

impl ExecError {
    /// The failure as an error of the node: the peer's fault where the
    /// operation is missing or the guest failed, the node's where the engine
    /// failed.
    pub fn to_error(self) -> (e: Error)
        ensures
            match self {
                ExecError::NotFound => e is IO && e.message()
                    == "wapc protocol did not find method"@ && e.cause() is None,
                ExecError::GuestFailure(m) => e is IO && e.message()
                    == "wapc protocol trouble communicating with host"@ && e.cause() == Some(m@),
                ExecError::HostFailure(m) => e is Internal && e.message()
                    == "wapc protocol internal error"@ && e.cause() == Some(m@),
            },
    {
        match self {
            ExecError::NotFound => Error::io("wapc protocol did not find method", None),
            ExecError::GuestFailure(m) => Error::io(
                "wapc protocol trouble communicating with host",
                Some(m),
            ),
            ExecError::HostFailure(m) => Error::internal("wapc protocol internal error", Some(m)),
        }
    }
}

impl RegistryError {
    /// The failure as an error of the node: a fault of the node where the
    /// program is missing, else the error that the program's failure is.
    pub fn to_error(self) -> (e: Error)
        ensures
            match self {
                RegistryError::NotFound => e is Internal && e.message()
                    == "the program could not be found"@ && e.cause() is None,
                RegistryError::Exec(ExecError::NotFound) => e is IO && e.message()
                    == "wapc protocol did not find method"@ && e.cause() is None,
                RegistryError::Exec(ExecError::GuestFailure(m)) => e is IO && e.message()
                    == "wapc protocol trouble communicating with host"@ && e.cause() == Some(m@),
                RegistryError::Exec(ExecError::HostFailure(m)) => e is Internal && e.message()
                    == "wapc protocol internal error"@ && e.cause() == Some(m@),
            },
    {
        match self {
            RegistryError::NotFound => Error::internal("the program could not be found", None),
            RegistryError::Exec(x) => x.to_error(),
        }
    }
}

impl NoDevicesError {
    /// The failure as an error of the node.
    pub fn to_error(self) -> (e: Error)
        ensures
            e is Internal,
            e.message() == "No devices registered"@,
            e.cause() is None,
    {
        Error::internal("No devices registered", None)
    }
}

} // verus!
