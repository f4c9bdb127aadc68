//! The error taxonomy that every transport operation reports.

use vstd::prelude::*;
use crate::text::{i32_to_string, spec_decimal_signed};

verus! {

/// Why a backend operation failed.
///
/// `NotStarted`: a call was attempted before `start` or after `stop`.
/// `ProcessDied`: no response arrived within the timeout; a hung and a dead
/// child are indistinguishable from this side and are reported alike.
/// `RpcError`: the child itself reported an application-level failure.
/// `IoError`: spawning the child or writing to its pipe failed.
/// `ParseError`: a well-formed response could not be decoded into the shape
/// the caller expected.
#[derive(Debug, Clone, PartialEq)]
pub enum BackendError {
    NotStarted,
    ProcessDied,
    RpcError { code: i32, message: String },
    IoError(String),
    ParseError(String),
}

/// The one-line description of an error, as shown to the user.
pub open spec fn spec_describe(e: BackendError) -> Seq<char> {
    match e {
        BackendError::NotStarted => "Backend not started"@,
        BackendError::ProcessDied => "Backend process died"@,
        BackendError::RpcError { code, message } => "RPC error "@ + spec_decimal_signed(
            code as int,
        ) + ": "@ + message@,
        BackendError::IoError(m) => "IO error: "@ + m@,
        BackendError::ParseError(m) => "Parse error: "@ + m@,
    }
}

impl BackendError {
    /// Renders the error as one line of plain text.
    pub fn describe(&self) -> (r: String)
        ensures
            r@ == spec_describe(*self),
    {
        match self {
            BackendError::NotStarted => {
                let mut out = String::new();
                out.append("Backend not started");
                assert(out@ =~= spec_describe(*self));
                out
            },
            BackendError::ProcessDied => {
                let mut out = String::new();
                out.append("Backend process died");
                assert(out@ =~= spec_describe(*self));
                out
            },
            BackendError::RpcError { code, message } => {
                let mut out = String::new();
                out.append("RPC error ");
                let num = i32_to_string(*code);
                out.append(num.as_str());
                out.append(": ");
                out.append(message.as_str());
                assert(out@ =~= spec_describe(*self));
                out
            },
            BackendError::IoError(m) => {
                let mut out = String::new();
                out.append("IO error: ");
                out.append(m.as_str());
                assert(out@ =~= spec_describe(*self));
                out
            },
            BackendError::ParseError(m) => {
                let mut out = String::new();
                out.append("Parse error: ");
                out.append(m.as_str());
                assert(out@ =~= spec_describe(*self));
                out
            },
        }
    }
}

} // verus!
