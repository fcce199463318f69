//! The execution context that a builtin command is handed.

use vstd::prelude::*;
use vstd::string::*;
use crate::text::views;
use crate::vars::{lookup, CmdVars};

verus! {

/// What one invocation of a builtin command works with: its arguments, its
/// variable overrides, its working directory and its three standard streams.
/// `I` is the type of the handle to read from, `O` that of the handles to
/// write to. A context is made for one invocation and dropped after it.
pub struct CmdEnv<I, O> {
    stdin: I,
    stdout: O,
    stderr: O,
    args: Vec<String>,
    vars: CmdVars,
    current_dir: String,
}

/// A [`CmdEnv`] as contracts see it.
pub struct CmdEnvView<I, O> {
    pub stdin: I,
    pub stdout: O,
    pub stderr: O,
    pub args: Seq<Seq<char>>,
    pub vars: Seq<(Seq<char>, Seq<char>)>,
    pub current_dir: Seq<char>,
}

impl<I, O> View for CmdEnv<I, O> {
    type V = CmdEnvView<I, O>;

    closed spec fn view(&self) -> CmdEnvView<I, O> {
        CmdEnvView {
            stdin: self.stdin,
            stdout: self.stdout,
            stderr: self.stderr,
            args: views(self.args@),
            vars: self.vars@,
            current_dir: self.current_dir@,
        }
    }
}

impl<I, O> CmdEnv<I, O> {
    /// The context with these parts.
    pub fn new(
        args: Vec<String>,
        vars: CmdVars,
        current_dir: String,
        stdin: I,
        stdout: O,
        stderr: O,
    ) -> (r: CmdEnv<I, O>)
        ensures
            r@ == (CmdEnvView {
                stdin,
                stdout,
                stderr,
                args: views(args@),
                vars: vars@,
                current_dir: current_dir@,
            }),
    {
        CmdEnv { stdin, stdout, stderr, args, vars, current_dir }
    }

    /// The arguments of this command; the first is the command's name.
    pub fn args(&self) -> (r: &[String])
        ensures
            views(r@) == self@.args,
    {
        self.args.as_slice()
    }

    /// The value of the variable override `key` for this command.
    pub fn var(&self, key: &str) -> (r: Option<&String>)
        ensures
            match r {
                Some(v) => lookup(self@.vars, key@) == Some(v@),
                None => lookup(self@.vars, key@) is None,
            },
    {
        self.vars.get(key)
    }

    /// The working directory of this command.
    pub fn current_dir(&self) -> (r: &str)
        ensures
            r@ == self@.current_dir,
    {
        self.current_dir.as_str()
    }

    /// The handle to the standard input of this command.
    pub fn stdin(&mut self) -> (r: &mut I)
        ensures
            *r == old(self)@.stdin,
            final(self)@ == (CmdEnvView { stdin: *final(r), ..old(self)@ }),
    {
        &mut self.stdin
    }

    /// The handle to the standard output of this command.
    pub fn stdout(&mut self) -> (r: &mut O)
        ensures
            *r == old(self)@.stdout,
            final(self)@ == (CmdEnvView { stdout: *final(r), ..old(self)@ }),
    {
        &mut self.stdout
    }

    /// The handle to the standard error of this command.
    pub fn stderr(&mut self) -> (r: &mut O)
        ensures
            *r == old(self)@.stderr,
            final(self)@ == (CmdEnvView { stderr: *final(r), ..old(self)@ }),
    {
        &mut self.stderr
    }
}

} // verus!
