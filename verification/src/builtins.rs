//! The stock builtin commands. Each takes the argument list (the command's
//! own name first), the variable overrides and the buffers that stand for
//! its standard streams, and leaves its text in a buffer.

use vstd::prelude::*;
use vstd::string::*;
use crate::error::CmdResult;
use crate::text::{join, join_from, views};
use crate::vars::CmdVars;

verus! {

/// The arguments of a builtin command; the first is the command's name.
pub type CmdArgs = Vec<String>;

/// The variable overrides of a builtin command.
pub type CmdEnvs = CmdVars;

/// The buffers that stand for the standard streams of a builtin command.
#[derive(Debug)]
pub struct CmdStdio {
    pub inbuf: String,
    pub outbuf: String,
    pub errbuf: String,
}

/// A [`CmdStdio`] as contracts see it.
pub struct CmdStdioView {
    pub inbuf: Seq<char>,
    pub outbuf: Seq<char>,
    pub errbuf: Seq<char>,
}

impl View for CmdStdio {
    type V = CmdStdioView;

    open spec fn view(&self) -> CmdStdioView {
        CmdStdioView { inbuf: self.inbuf@, outbuf: self.outbuf@, errbuf: self.errbuf@ }
    }
}

impl CmdStdio {
    /// Three empty buffers.
    pub fn new() -> (r: CmdStdio)
        ensures
            r@ == (CmdStdioView {
                inbuf: Seq::empty(),
                outbuf: Seq::empty(),
                errbuf: Seq::empty(),
            }),
    {
        CmdStdio { inbuf: String::new(), outbuf: String::new(), errbuf: String::new() }
    }
}

/// The message of a builtin command: its arguments after the name, with one
/// space between neighbours.
pub open spec fn message_of(args: Seq<String>) -> Seq<char> {
    join(views(args).skip(1), " "@)
}

/// Does nothing and succeeds.
pub fn builtin_true(_args: CmdArgs, _envs: CmdEnvs, _io: &mut CmdStdio) -> (r: CmdResult)
    ensures
        r is Ok,
        final(_io)@ == old(_io)@,
{
    Ok(())
}

/// Appends the message to standard output.
pub fn builtin_echo(args: CmdArgs, _envs: CmdEnvs, io: &mut CmdStdio) -> (r: CmdResult)
    requires
        args.len() >= 1,
    ensures
        r is Ok,
        final(io)@ == (CmdStdioView {
            outbuf: old(io)@.outbuf + message_of(args@),
            ..old(io)@
        }),
{
    let msg = join_from(&args, 1, " ");
    io.outbuf.append(msg.as_str());
    Ok(())
}

/// Appends the message to standard error.
pub fn builtin_info(args: CmdArgs, _envs: CmdEnvs, io: &mut CmdStdio) -> (r: CmdResult)
    requires
        args.len() >= 1,
    ensures
        r is Ok,
        final(io)@ == (CmdStdioView {
            errbuf: old(io)@.errbuf + message_of(args@),
            ..old(io)@
        }),
{
    let msg = join_from(&args, 1, " ");
    io.errbuf.append(msg.as_str());
    Ok(())
}

/// Appends `WARNING: ` and the message to standard error.
pub fn builtin_warn(args: CmdArgs, _envs: CmdEnvs, io: &mut CmdStdio) -> (r: CmdResult)
    requires
        args.len() >= 1,
    ensures
        r is Ok,
        final(io)@ == (CmdStdioView {
            errbuf: old(io)@.errbuf + ("WARNING: "@ + message_of(args@)),
            ..old(io)@
        }),
{
    let msg = String::from_str("WARNING: ").concat(join_from(&args, 1, " ").as_str());
    io.errbuf.append(msg.as_str());
    Ok(())
}

/// Appends `ERROR: ` and the message to standard error.
pub fn builtin_err(args: CmdArgs, _envs: CmdEnvs, io: &mut CmdStdio) -> (r: CmdResult)
    requires
        args.len() >= 1,
    ensures
        r is Ok,
        final(io)@ == (CmdStdioView {
            errbuf: old(io)@.errbuf + ("ERROR: "@ + message_of(args@)),
            ..old(io)@
        }),
{
    let msg = String::from_str("ERROR: ").concat(join_from(&args, 1, " ").as_str());
    io.errbuf.append(msg.as_str());
    Ok(())
}

/// Appends `FATAL: ` and the message to standard error.
pub fn builtin_die(args: CmdArgs, _envs: CmdEnvs, io: &mut CmdStdio) -> (r: CmdResult)
    requires
        args.len() >= 1,
    ensures
        r is Ok,
        final(io)@ == (CmdStdioView {
            errbuf: old(io)@.errbuf + ("FATAL: "@ + message_of(args@)),
            ..old(io)@
        }),
{
    let msg = String::from_str("FATAL: ").concat(join_from(&args, 1, " ").as_str());
    io.errbuf.append(msg.as_str());
    Ok(())
}

} // verus!
