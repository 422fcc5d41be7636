//! The error type that the library reports, and its text.

use vstd::prelude::*;

use crate::text::{self, push_i32};

verus! {

/// What can go wrong while the runtime is set up or used.
#[derive(Debug)]
pub enum Error {
    /// A ROCm library could not be opened. `library` is its path between quotes.
    LibraryLoad { library: String, source: String },
    /// A ROCm library lacks a symbol.
    SymbolLoad { library: String, symbol: String, source: String },
    /// No file of a ROCm library was found.
    LibraryNotFound { name: String },
    /// A HIP call reported a failure.
    Hip { call: String, status: i32, message: String },
    /// A rocBLAS call reported a failure.
    Rocblas { call: String, status: i32 },
    /// A HIPRTC call reported a failure.
    Hiprtc { call: String, status: i32, log: String },
    /// A caller, a file or a model does not meet what the runtime asks of it.
    InvalidInput(String),
}

/// `e` is the error that reports the unusable input described by `text`.
pub open spec fn is_invalid(e: Error, text: Seq<char>) -> bool {
    e matches Error::InvalidInput(t) && t@ == text
}

/// The text that a user reads for `e`.
pub open spec fn error_text(e: Error) -> Seq<char> {
    match e {
        Error::LibraryLoad { library, source } => "failed to load ROCm library "@ + library@ + ": "@
            + source@,
        Error::SymbolLoad { library, symbol, source } => "failed to resolve symbol "@ + symbol@
            + " from "@ + library@ + ": "@ + source@,
        Error::LibraryNotFound { name } => "could not find ROCm library matching "@ + name@,
        Error::Hip { call, status, message } => "HIP call "@ + call@ + " failed with status "@
            + text::decimal_int(status as int) + ": "@ + message@,
        Error::Rocblas { call, status } => "rocBLAS call "@ + call@ + " failed with status "@
            + text::decimal_int(status as int),
        Error::Hiprtc { call, status, log } => "HIPRTC call "@ + call@ + " failed with status "@
            + text::decimal_int(status as int) + ": "@ + log@,
        Error::InvalidInput(reason) => "invalid input: "@ + reason@,
    }
}

impl Error {
    /// The text that a user reads.
    pub fn message(&self) -> (text: String)
        ensures
            text@ == error_text(*self),
    {
        let mut out = String::new();
        match self {
            Error::LibraryLoad { library, source } => {
                out.append("failed to load ROCm library ");
                out.append(library.as_str());
                out.append(": ");
                out.append(source.as_str());
            },
            Error::SymbolLoad { library, symbol, source } => {
                out.append("failed to resolve symbol ");
                out.append(symbol.as_str());
                out.append(" from ");
                out.append(library.as_str());
                out.append(": ");
                out.append(source.as_str());
            },
            Error::LibraryNotFound { name } => {
                out.append("could not find ROCm library matching ");
                out.append(name.as_str());
            },
            Error::Hip { call, status, message } => {
                out.append("HIP call ");
                out.append(call.as_str());
                out.append(" failed with status ");
                push_i32(&mut out, *status);
                out.append(": ");
                out.append(message.as_str());
            },
            Error::Rocblas { call, status } => {
                out.append("rocBLAS call ");
                out.append(call.as_str());
                out.append(" failed with status ");
                push_i32(&mut out, *status);
            },
            Error::Hiprtc { call, status, log } => {
                out.append("HIPRTC call ");
                out.append(call.as_str());
                out.append(" failed with status ");
                push_i32(&mut out, *status);
                out.append(": ");
                out.append(log.as_str());
            },
            Error::InvalidInput(text) => {
                out.append("invalid input: ");
                out.append(text.as_str());
            },
        }
        proof {
            assert(out@ =~= error_text(*self));
        }
        out
    }
}

/// The error for an unusable input described by `text`.
pub fn invalid(text: &str) -> (e: Error)
    ensures
        is_invalid(e, text@),
{
    Error::InvalidInput(text.to_owned())
}

} // verus!
