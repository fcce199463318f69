use cmd_lib::error::ErrorKind;
use cmd_lib::redirect::{
    setup_redirects, FileOpen, OpenMode, PipeEnd, Redirect, RedirectFd, Stdio, Stream,
};

fn file(path: &str) -> String {
    path.to_string()
}

#[test]
fn directives_are_described_as_they_are_written() {
    assert_eq!(Redirect::FileToStdin(file("in.txt")).describe(), "< in.txt");
    assert_eq!(Redirect::StdoutToStderr.describe(), ">&2");
    assert_eq!(Redirect::StderrToStdout.describe(), "2>&1");
    assert_eq!(Redirect::StdoutToFile(file("/tmp/o"), false).describe(), "1> /tmp/o");
    assert_eq!(Redirect::StdoutToFile(file("/tmp/o"), true).describe(), "1>> /tmp/o");
    assert_eq!(Redirect::StderrToFile(file("e"), false).describe(), "2> e");
    assert_eq!(Redirect::StderrToFile(file("e"), true).describe(), "2>> e");
}

#[test]
fn open_mode_follows_the_directive() {
    assert_eq!(Redirect::FileToStdin(file("a")).open_file(), Some(OpenMode::Read));
    assert_eq!(Redirect::StdoutToFile(file("a"), false).open_file(), Some(OpenMode::Truncate));
    assert_eq!(Redirect::StdoutToFile(file("a"), true).open_file(), Some(OpenMode::Append));
    assert_eq!(Redirect::StderrToFile(file("a"), false).open_file(), Some(OpenMode::Truncate));
    assert_eq!(Redirect::StderrToFile(file("a"), true).open_file(), Some(OpenMode::Append));
    assert_eq!(Redirect::StdoutToStderr.open_file(), None);
    assert_eq!(Redirect::StderrToStdout.open_file(), None);
}

#[test]
fn the_null_path_opens_no_file() {
    assert_eq!(Redirect::FileToStdin(file("/dev/null")).open_file(), None);
    assert_eq!(Redirect::StdoutToFile(file("/dev/null"), false).open_file(), None);
    assert_eq!(Redirect::StderrToFile(file("/dev/null"), true).open_file(), None);
    assert_eq!(Redirect::StdoutToFile(file("/dev/nul"), false).open_file(), Some(OpenMode::Truncate));
}

#[test]
fn path_of_a_directive() {
    assert_eq!(Redirect::FileToStdin(file("a")).path(), Some("a"));
    assert_eq!(Redirect::StdoutToFile(file("b"), true).path(), Some("b"));
    assert_eq!(Redirect::StderrToFile(file("c"), false).path(), Some("c"));
    assert_eq!(Redirect::StdoutToStderr.path(), None);
    assert_eq!(Redirect::StderrToStdout.path(), None);
}

#[test]
fn without_directives_a_sole_stage_inherits_input_and_output() {
    let w = setup_redirects(&vec![], false, false, false);
    assert_eq!(w.stdin, Stdio::Inherited(Stream::Stdin));
    assert_eq!(w.stdout, Stdio::Inherited(Stream::Stdout));
    assert_eq!(w.stderr, Stdio::Pipe(PipeEnd::Log));
    assert!(w.opens.is_empty());
}

#[test]
fn pipes_bind_the_streams_of_a_middle_stage() {
    for with_output in [false, true] {
        let w = setup_redirects(&vec![], true, true, with_output);
        assert_eq!(w.stdin, Stdio::Pipe(PipeEnd::Previous));
        assert_eq!(w.stdout, Stdio::Pipe(PipeEnd::Next));
        assert_eq!(w.stderr, Stdio::Pipe(PipeEnd::Log));
    }
}

#[test]
fn output_of_the_last_stage_is_collected_when_asked() {
    let w = setup_redirects(&vec![], true, false, true);
    assert_eq!(w.stdin, Stdio::Pipe(PipeEnd::Previous));
    assert_eq!(w.stdout, Stdio::Pipe(PipeEnd::Output));
    let w = setup_redirects(&vec![], true, false, false);
    assert_eq!(w.stdout, Stdio::Inherited(Stream::Stdout));
}

#[test]
fn file_directives_override_the_pipes() {
    let redirects = vec![
        Redirect::FileToStdin(file("in")),
        Redirect::StdoutToFile(file("out"), false),
        Redirect::StderrToFile(file("err"), true),
    ];
    let w = setup_redirects(&redirects, true, true, true);
    assert_eq!(w.stdin, Stdio::File(0));
    assert_eq!(w.stdout, Stdio::File(1));
    assert_eq!(w.stderr, Stdio::File(2));
    assert_eq!(
        w.opens,
        vec![
            FileOpen { directive: 0, mode: OpenMode::Read },
            FileOpen { directive: 1, mode: OpenMode::Truncate },
            FileOpen { directive: 2, mode: OpenMode::Append },
        ]
    );
}

#[test]
fn the_null_path_gives_the_null_sink() {
    let redirects = vec![
        Redirect::FileToStdin(file("/dev/null")),
        Redirect::StdoutToFile(file("/dev/null"), false),
        Redirect::StderrToFile(file("/dev/null"), false),
    ];
    let w = setup_redirects(&redirects, false, false, false);
    assert_eq!(w.stdin, Stdio::Null);
    assert_eq!(w.stdout, Stdio::Null);
    assert_eq!(w.stderr, Stdio::Null);
    assert!(w.opens.is_empty());
}

#[test]
fn cross_stream_directive_copies_the_binding_of_that_moment() {
    // standard error first goes where standard output goes, then output moves on
    let redirects = vec![Redirect::StderrToStdout, Redirect::StdoutToFile(file("out"), false)];
    let w = setup_redirects(&redirects, false, false, false);
    assert_eq!(w.stderr, Stdio::Inherited(Stream::Stdout));
    assert_eq!(w.stdout, Stdio::File(1));

    // the other order: both end up in the file, which is opened once
    let redirects = vec![Redirect::StdoutToFile(file("out"), false), Redirect::StderrToStdout];
    let w = setup_redirects(&redirects, false, false, false);
    assert_eq!(w.stdout, Stdio::File(0));
    assert_eq!(w.stderr, Stdio::File(0));
    assert_eq!(w.opens, vec![FileOpen { directive: 0, mode: OpenMode::Truncate }]);
}

#[test]
fn output_to_error_takes_the_stages_own_error_pipe() {
    let w = setup_redirects(&vec![Redirect::StdoutToStderr], false, true, false);
    assert_eq!(w.stdout, Stdio::Pipe(PipeEnd::Log));
    assert_eq!(w.stderr, Stdio::Pipe(PipeEnd::Log));

    let redirects = vec![Redirect::StdoutToStderr, Redirect::StderrToFile(file("e"), false)];
    let w = setup_redirects(&redirects, false, false, true);
    assert_eq!(w.stdout, Stdio::Pipe(PipeEnd::Log));
    assert_eq!(w.stderr, Stdio::File(1));
}

#[test]
fn swapping_the_streams_is_order_dependent() {
    let w = setup_redirects(
        &vec![Redirect::StdoutToStderr, Redirect::StderrToStdout],
        false,
        true,
        false,
    );
    assert_eq!(w.stdout, Stdio::Pipe(PipeEnd::Log));
    assert_eq!(w.stderr, Stdio::Pipe(PipeEnd::Log));
    let w = setup_redirects(
        &vec![Redirect::StderrToStdout, Redirect::StdoutToStderr],
        false,
        true,
        false,
    );
    assert_eq!(w.stdout, Stdio::Pipe(PipeEnd::Next));
    assert_eq!(w.stderr, Stdio::Pipe(PipeEnd::Next));
}

#[test]
fn a_later_directive_for_the_same_stream_wins_but_both_files_are_opened() {
    let redirects = vec![
        Redirect::StdoutToFile(file("first"), false),
        Redirect::StdoutToFile(file("second"), true),
    ];
    let w = setup_redirects(&redirects, false, false, false);
    assert_eq!(w.stdout, Stdio::File(1));
    assert_eq!(
        w.opens,
        vec![
            FileOpen { directive: 0, mode: OpenMode::Truncate },
            FileOpen { directive: 1, mode: OpenMode::Append },
        ]
    );
}

#[test]
fn redirect_fd_numbers_and_append_flags() {
    assert_eq!(RedirectFd::Stdin.get_id(), 0);
    assert_eq!(RedirectFd::Stdout(false).get_id(), 1);
    assert_eq!(RedirectFd::Stderr(true).get_id(), 2);
    assert_eq!(RedirectFd::StdoutErr(false).get_id(), 2);
    assert!(!RedirectFd::Stdin.get_append());
    assert!(RedirectFd::Stdout(true).get_append());
    assert!(!RedirectFd::Stdout(false).get_append());
    assert!(RedirectFd::Stderr(true).get_append());
    assert!(RedirectFd::StdoutErr(true).get_append());
    assert!(!RedirectFd::StdoutErr(false).get_append());
}

#[test]
fn redirect_of_both_streams_expands_to_two_directives() {
    let both = RedirectFd::StdoutErr(false).directives("log");
    assert_eq!(both.len(), 2);
    assert_eq!(both[0].describe(), "1> log");
    assert_eq!(both[1].describe(), "2>> log");
    let both = RedirectFd::StdoutErr(true).directives("log");
    assert_eq!(both[0].describe(), "1>> log");
    assert_eq!(both[1].describe(), "2>> log");
    let one = RedirectFd::Stdin.directives("in");
    assert_eq!(one.len(), 1);
    assert_eq!(one[0].describe(), "< in");
    assert_eq!(RedirectFd::Stdout(true).directives("o")[0].describe(), "1>> o");
    assert_eq!(RedirectFd::Stderr(false).directives("e")[0].describe(), "2> e");
}

#[test]
fn directive_for_a_stream_number() {
    assert_eq!(Redirect::to_file(0, "f", false).unwrap().describe(), "< f");
    assert_eq!(Redirect::to_file(1, "f", true).unwrap().describe(), "1>> f");
    assert_eq!(Redirect::to_file(2, "f", false).unwrap().describe(), "2> f");
    let e = Redirect::to_file(3, "f", false).unwrap_err();
    assert_eq!(e.kind, ErrorKind::Build);
    assert_eq!(e.message, "unsupported stream in redirect");
    assert_eq!(Redirect::to_file(-1, "f", false).unwrap_err().kind, ErrorKind::Build);
}

#[test]
fn directive_for_a_stream_alias() {
    assert_eq!(Redirect::to_stream(1, 2).unwrap().unwrap().describe(), ">&2");
    assert_eq!(Redirect::to_stream(2, 1).unwrap().unwrap().describe(), "2>&1");
    assert!(Redirect::to_stream(1, 1).unwrap().is_none());
    assert!(Redirect::to_stream(2, 2).unwrap().is_none());
    assert_eq!(Redirect::to_stream(0, 1).unwrap_err().kind, ErrorKind::Build);
    assert_eq!(Redirect::to_stream(1, 3).unwrap_err().kind, ErrorKind::Build);
}
