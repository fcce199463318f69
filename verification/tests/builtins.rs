use cmd_lib::builtins::{
    builtin_die, builtin_echo, builtin_err, builtin_info, builtin_true, builtin_warn, CmdStdio,
};
use cmd_lib::vars::CmdVars;

fn args(parts: &[&str]) -> Vec<String> {
    parts.iter().map(|s| s.to_string()).collect()
}

#[test]
fn echo_joins_arguments_with_spaces() {
    let mut io = CmdStdio::new();
    assert!(builtin_echo(args(&["echo", "hello", "world"]), CmdVars::new(), &mut io).is_ok());
    assert_eq!(io.outbuf, "hello world");
    assert_eq!(io.errbuf, "");
    assert_eq!(io.inbuf, "");
}

#[test]
fn echo_appends_to_what_is_there() {
    let mut io = CmdStdio::new();
    io.outbuf.push_str("so far: ");
    assert!(builtin_echo(args(&["echo", "x"]), CmdVars::new(), &mut io).is_ok());
    assert_eq!(io.outbuf, "so far: x");
}

#[test]
fn echo_without_arguments_writes_nothing() {
    let mut io = CmdStdio::new();
    assert!(builtin_echo(args(&["echo"]), CmdVars::new(), &mut io).is_ok());
    assert_eq!(io.outbuf, "");
}

#[test]
fn true_does_nothing() {
    let mut io = CmdStdio::new();
    io.inbuf.push_str("in");
    assert!(builtin_true(args(&["true", "x"]), CmdVars::new(), &mut io).is_ok());
    assert_eq!(io.inbuf, "in");
    assert_eq!(io.outbuf, "");
    assert_eq!(io.errbuf, "");
}

#[test]
fn info_writes_to_standard_error() {
    let mut io = CmdStdio::new();
    assert!(builtin_info(args(&["info", "a", "b"]), CmdVars::new(), &mut io).is_ok());
    assert_eq!(io.errbuf, "a b");
    assert_eq!(io.outbuf, "");
}

#[test]
fn warn_err_and_die_prefix_the_message() {
    let mut io = CmdStdio::new();
    assert!(builtin_warn(args(&["warn", "low", "disk"]), CmdVars::new(), &mut io).is_ok());
    assert_eq!(io.errbuf, "WARNING: low disk");

    let mut io = CmdStdio::new();
    assert!(builtin_err(args(&["err", "bad"]), CmdVars::new(), &mut io).is_ok());
    assert_eq!(io.errbuf, "ERROR: bad");

    let mut io = CmdStdio::new();
    assert!(builtin_die(args(&["die", "gone", "wrong"]), CmdVars::new(), &mut io).is_ok());
    assert_eq!(io.errbuf, "FATAL: gone wrong");
    assert_eq!(io.outbuf, "");
}
