//! Errors and result types.

use vstd::prelude::*;
use vstd::string::*;

verus! {

/// The four ways in which running a group of commands can fail.
#[derive(Clone, Copy, Debug, PartialEq, Eq, Structural)]
pub enum ErrorKind {
    /// The sequence of builder calls does not describe a command.
    Build,
    /// The system could not create a process, a pipe or a file.
    Spawn,
    /// A stage ran and reported failure.
    Runtime,
    /// A change of the working directory was refused.
    DirectoryChange,
}

/// A failure, with the text that describes it.
#[derive(Debug)]
pub struct CmdError {
    pub kind: ErrorKind,
    pub message: String,
}

/// A [`CmdError`] as contracts see it.
pub struct CmdErrorView {
    pub kind: ErrorKind,
    pub message: Seq<char>,
}

impl View for CmdError {
    type V = CmdErrorView;

    open spec fn view(&self) -> CmdErrorView {
        CmdErrorView { kind: self.kind, message: self.message@ }
    }
}

/// What running a command yields.
pub type CmdResult = Result<(), CmdError>;

/// What running a command for its output yields.
pub type FunResult = Result<String, CmdError>;

/// A [`CmdResult`] as contracts see it.
pub open spec fn cmd_result_view(r: CmdResult) -> Result<(), CmdErrorView> {
    match r {
        Ok(_) => Ok(()),
        Err(e) => Err(e@),
    }
}

/// A [`FunResult`] as contracts see it.
pub open spec fn fun_result_view(r: FunResult) -> Result<Seq<char>, CmdErrorView> {
    match r {
        Ok(s) => Ok(s@),
        Err(e) => Err(e@),
    }
}

impl CmdError {
    /// An error of the given kind with the given text.
    pub fn new(kind: ErrorKind, message: &str) -> (r: CmdError)
        ensures
            r@ == (CmdErrorView { kind, message: message@ }),
    {
        CmdError { kind, message: String::from_str(message) }
    }

    /// The kind of failure.
    pub fn kind(&self) -> (r: ErrorKind)
        ensures
            r == self@.kind,
    {
        self.kind
    }

    /// The text that describes the failure.
    pub fn message(&self) -> (r: &str)
        ensures
            r@ == self@.message,
    {
        self.message.as_str()
    }

    /// A copy of this error.
    pub fn duplicate(&self) -> (r: CmdError)
        ensures
            r@ == self@,
    {
        CmdError { kind: self.kind, message: self.message.clone() }
    }
}

} // verus!
