//! Errors of input and output, as plain values.

use vstd::prelude::*;
use vstd::string::*;

verus! {

/// What went wrong, in the terms of the operating system.
#[derive(Debug, Clone, Copy, PartialEq, Eq, Hash, Structural)]
pub enum ErrorKind {
    NotFound,
    PermissionDenied,
    ConnectionRefused,
    ConnectionReset,
    HostUnreachable,
    NetworkUnreachable,
    ConnectionAborted,
    NotConnected,
    AddrInUse,
    AddrNotAvailable,
    NetworkDown,
    BrokenPipe,
    AlreadyExists,
    WouldBlock,
    InvalidInput,
    InvalidData,
    TimedOut,
    WriteZero,
    ResourceBusy,
    Interrupted,
    Unsupported,
    UnexpectedEof,
    OutOfMemory,
    Other,
}

/// An error of input or output: its kind, and what it says.
#[derive(Debug, PartialEq, Eq)]
pub struct IoError {
    pub kind: ErrorKind,
    pub message: String,
}

pub struct IoErrorView {
    pub kind: ErrorKind,
    pub message: Seq<char>,
}

impl View for IoError {
    type V = IoErrorView;

    open spec fn view(&self) -> IoErrorView {
        IoErrorView { kind: self.kind, message: self.message@ }
    }
}

impl Clone for IoError {
    fn clone(&self) -> (r: Self)
        ensures
            r == *self,
    {
        IoError { kind: self.kind, message: self.message.clone() }
    }
}

impl IoError {
    pub fn new(kind: ErrorKind, message: &str) -> (r: Self)
        ensures
            r@ == (IoErrorView { kind, message: message@ }),
    {
        IoError { kind, message: message.to_owned() }
    }

    /// An error that another layer reports, passed on as input or output.
    pub fn other(message: String) -> (r: Self)
        ensures
            r == (IoError { kind: ErrorKind::Other, message }),
    {
        IoError { kind: ErrorKind::Other, message }
    }
}

/// Two errors are the same only if their kinds and their words are.
pub proof fn errors_are_told_apart(a: IoError, b: IoError)
    ensures
        a@ == b@ <==> a.kind == b.kind && a.message@ == b.message@,
{
}

} // verus!
