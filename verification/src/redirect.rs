//! Redirect directives of a stage, the descriptors that say what a standard
//! stream is bound to, and the rule that turns the directives of a stage into
//! the bindings of its three streams.

use vstd::prelude::*;
use vstd::string::*;
use crate::error::{CmdError, CmdErrorView, ErrorKind};

verus! {

/// One redirect directive. The order in which a stage declares its directives
/// is kept and matters.
#[derive(Debug)]
pub enum Redirect {
    /// Standard input reads the file.
    FileToStdin(String),
    /// Standard output goes where standard error goes at that moment.
    StdoutToStderr,
    /// Standard error goes where standard output goes at that moment.
    StderrToStdout,
    /// Standard output is written to the file; `true` appends.
    StdoutToFile(String, bool),
    /// Standard error is written to the file; `true` appends.
    StderrToFile(String, bool),
}

/// A [`Redirect`] as contracts see it.
pub enum RedirectView {
    FileToStdin(Seq<char>),
    StdoutToStderr,
    StderrToStdout,
    StdoutToFile(Seq<char>, bool),
    StderrToFile(Seq<char>, bool),
}

impl View for Redirect {
    type V = RedirectView;

    open spec fn view(&self) -> RedirectView {
        match self {
            Redirect::FileToStdin(path) => RedirectView::FileToStdin(path@),
            Redirect::StdoutToStderr => RedirectView::StdoutToStderr,
            Redirect::StderrToStdout => RedirectView::StderrToStdout,
            Redirect::StdoutToFile(path, append) => RedirectView::StdoutToFile(path@, *append),
            Redirect::StderrToFile(path, append) => RedirectView::StderrToFile(path@, *append),
        }
    }
}

/// The views of a list of directives, in order.
pub open spec fn redirect_views(redirects: Seq<Redirect>) -> Seq<RedirectView> {
    Seq::new(redirects.len(), |i: int| redirects[i]@)
}

/// The directive as it is written in diagnostics.
pub open spec fn redirect_text(redirect: RedirectView) -> Seq<char> {
    match redirect {
        RedirectView::FileToStdin(path) => "< "@ + path,
        RedirectView::StdoutToStderr => ">&2"@,
        RedirectView::StderrToStdout => "2>&1"@,
        RedirectView::StdoutToFile(path, append) => if append {
            "1>> "@ + path
        } else {
            "1> "@ + path
        },
        RedirectView::StderrToFile(path, append) => if append {
            "2>> "@ + path
        } else {
            "2> "@ + path
        },
    }
}

/// How a file named by a directive is opened.
#[derive(Clone, Copy, Debug, PartialEq, Eq, Structural)]
pub enum OpenMode {
    /// For reading; the file must exist.
    Read,
    /// For writing, created if missing, emptied if not.
    Truncate,
    /// For writing at the end, created if missing.
    Append,
}

/// The path that discards what is written to it and reads as empty.
pub open spec fn is_null_path(path: Seq<char>) -> bool {
    path == "/dev/null"@
}

/// The file that a directive asks to be opened, with the mode: none for a
/// directive that names no file, and none for the null path.
pub open spec fn redirect_open(redirect: RedirectView) -> Option<OpenMode> {
    match redirect {
        RedirectView::FileToStdin(path) => if is_null_path(path) {
            None
        } else {
            Some(OpenMode::Read)
        },
        RedirectView::StdoutToFile(path, append) | RedirectView::StderrToFile(path, append) => {
            if is_null_path(path) {
                None
            } else if append {
                Some(OpenMode::Append)
            } else {
                Some(OpenMode::Truncate)
            }
        },
        _ => None,
    }
}

impl Redirect {
    /// The directive as it is written in diagnostics: `< path`, `>&2`,
    /// `2>&1`, `1> path`, `1>> path`, `2> path` or `2>> path`.
    pub fn describe(&self) -> (r: String)
        ensures
            r@ == redirect_text(self@),
    {
        match self {
            Redirect::FileToStdin(path) => String::from_str("< ").concat(path.as_str()),
            Redirect::StdoutToStderr => String::from_str(">&2"),
            Redirect::StderrToStdout => String::from_str("2>&1"),
            Redirect::StdoutToFile(path, append) => {
                if *append {
                    String::from_str("1>> ").concat(path.as_str())
                } else {
                    String::from_str("1> ").concat(path.as_str())
                }
            },
            Redirect::StderrToFile(path, append) => {
                if *append {
                    String::from_str("2>> ").concat(path.as_str())
                } else {
                    String::from_str("2> ").concat(path.as_str())
                }
            },
        }
    }

    /// A copy of this directive.
    pub fn duplicate(&self) -> (r: Redirect)
        ensures
            r@ == self@,
    {
        match self {
            Redirect::FileToStdin(path) => Redirect::FileToStdin(path.clone()),
            Redirect::StdoutToStderr => Redirect::StdoutToStderr,
            Redirect::StderrToStdout => Redirect::StderrToStdout,
            Redirect::StdoutToFile(path, append) => Redirect::StdoutToFile(path.clone(), *append),
            Redirect::StderrToFile(path, append) => Redirect::StderrToFile(path.clone(), *append),
        }
    }

    /// The path that the directive names, if it names one.
    pub fn path(&self) -> (r: Option<&str>)
        ensures
            match self@ {
                RedirectView::FileToStdin(p)
                | RedirectView::StdoutToFile(p, _)
                | RedirectView::StderrToFile(p, _) => r matches Some(s) && s@ == p,
                _ => r is None,
            },
    {
        match self {
            Redirect::FileToStdin(path) => Some(path.as_str()),
            Redirect::StdoutToFile(path, _) => Some(path.as_str()),
            Redirect::StderrToFile(path, _) => Some(path.as_str()),
            _ => None,
        }
    }

    /// The mode in which the directive's file is to be opened; `None` where
    /// the directive opens no file.
    pub fn open_file(&self) -> (r: Option<OpenMode>)
        ensures
            r == redirect_open(self@),
    {
        match self {
            Redirect::FileToStdin(path) => {
                if path.as_str().eq("/dev/null") {
                    None
                } else {
                    Some(OpenMode::Read)
                }
            },
            Redirect::StdoutToFile(path, append) => {
                if path.as_str().eq("/dev/null") {
                    None
                } else if *append {
                    Some(OpenMode::Append)
                } else {
                    Some(OpenMode::Truncate)
                }
            },
            Redirect::StderrToFile(path, append) => {
                if path.as_str().eq("/dev/null") {
                    None
                } else if *append {
                    Some(OpenMode::Append)
                } else {
                    Some(OpenMode::Truncate)
                }
            },
            _ => None,
        }
    }
}

/// A redirect to a file as it is written down: which stream, and for an
/// output stream whether the file is appended to.
#[derive(Clone, Copy, Debug, PartialEq, Eq, Structural)]
pub enum RedirectFd {
    /// Standard input reads the file.
    Stdin,
    /// Standard output is written to the file; `true` appends.
    Stdout(bool),
    /// Standard error is written to the file; `true` appends.
    Stderr(bool),
    /// Standard output and standard error are both written to the file;
    /// `true` appends.
    StdoutErr(bool),
}

impl RedirectFd {
    /// The number of the stream.
    pub open spec fn id(self) -> int {
        match self {
            RedirectFd::Stdin => 0,
            RedirectFd::Stdout(_) => 1,
            RedirectFd::Stderr(_) | RedirectFd::StdoutErr(_) => 2,
        }
    }

    /// Whether the file is appended to.
    pub open spec fn append(self) -> bool {
        match self {
            RedirectFd::Stdin => false,
            RedirectFd::Stdout(append)
            | RedirectFd::Stderr(append)
            | RedirectFd::StdoutErr(append) => append,
        }
    }

    /// The directives that the redirect stands for. The redirect of both
    /// output streams stands for two: standard output to the file, then
    /// standard error to the same file, appending.
    pub open spec fn expansion(self, path: Seq<char>) -> Seq<RedirectView> {
        match self {
            RedirectFd::Stdin => seq![RedirectView::FileToStdin(path)],
            RedirectFd::Stdout(append) => seq![RedirectView::StdoutToFile(path, append)],
            RedirectFd::Stderr(append) => seq![RedirectView::StderrToFile(path, append)],
            RedirectFd::StdoutErr(append) => seq![
                RedirectView::StdoutToFile(path, append),
                RedirectView::StderrToFile(path, true),
            ],
        }
    }

    /// The number of the stream: 0 for standard input, 1 for standard
    /// output, 2 for standard error and for both output streams.
    pub fn get_id(&self) -> (r: i32)
        ensures
            r == self.id(),
    {
        match self {
            RedirectFd::Stdin => 0,
            RedirectFd::Stdout(_) => 1,
            RedirectFd::Stderr(_) | RedirectFd::StdoutErr(_) => 2,
        }
    }

    /// Whether the file is appended to.
    pub fn get_append(&self) -> (r: bool)
        ensures
            r == self.append(),
    {
        match self {
            RedirectFd::Stdin => false,
            RedirectFd::Stdout(append) => *append,
            RedirectFd::Stderr(append) => *append,
            RedirectFd::StdoutErr(append) => *append,
        }
    }

    /// The directives that the redirect stands for, with `path` as the file.
    pub fn directives(&self, path: &str) -> (r: Vec<Redirect>)
        ensures
            redirect_views(r@) == self.expansion(path@),
    {
        let mut out: Vec<Redirect> = Vec::new();
        match self {
            RedirectFd::Stdin => {
                out.push(Redirect::FileToStdin(String::from_str(path)));
            },
            RedirectFd::Stdout(append) => {
                out.push(Redirect::StdoutToFile(String::from_str(path), *append));
            },
            RedirectFd::Stderr(append) => {
                out.push(Redirect::StderrToFile(String::from_str(path), *append));
            },
            RedirectFd::StdoutErr(append) => {
                out.push(Redirect::StdoutToFile(String::from_str(path), *append));
                out.push(Redirect::StderrToFile(String::from_str(path), true));
            },
        }
        proof {
            assert(redirect_views(out@) =~= self.expansion(path@));
        }
        out
    }
}

/// The error for a redirect that names a stream other than 0, 1 and 2.
pub open spec fn bad_stream_error() -> CmdErrorView {
    CmdErrorView { kind: ErrorKind::Build, message: "unsupported stream in redirect"@ }
}

/// The directive for a redirect of stream `stream` to the file `path`.
pub open spec fn file_redirect(stream: int, path: Seq<char>, append: bool) -> Result<
    RedirectView,
    CmdErrorView,
> {
    if stream == 0 {
        Ok(RedirectView::FileToStdin(path))
    } else if stream == 1 {
        Ok(RedirectView::StdoutToFile(path, append))
    } else if stream == 2 {
        Ok(RedirectView::StderrToFile(path, append))
    } else {
        Err(bad_stream_error())
    }
}

/// The directive for making stream `old_fd` an alias of stream `new_fd`;
/// none where the two are the same stream.
pub open spec fn alias_redirect(old_fd: int, new_fd: int) -> Result<
    Option<RedirectView>,
    CmdErrorView,
> {
    if old_fd == new_fd {
        Ok(None)
    } else if old_fd == 1 && new_fd == 2 {
        Ok(Some(RedirectView::StdoutToStderr))
    } else if old_fd == 2 && new_fd == 1 {
        Ok(Some(RedirectView::StderrToStdout))
    } else {
        Err(bad_stream_error())
    }
}

impl Redirect {
    /// The directive for a redirect of stream `stream` (0 standard input, 1
    /// standard output, 2 standard error) to the file `path`. Any other
    /// stream is an error.
    pub fn to_file(stream: i32, path: &str, append: bool) -> (r: Result<Redirect, CmdError>)
        ensures
            match file_redirect(stream as int, path@, append) {
                Ok(d) => r matches Ok(x) && x@ == d,
                Err(e) => r matches Err(f) && f@ == e,
            },
    {
        if stream == 0 {
            Ok(Redirect::FileToStdin(String::from_str(path)))
        } else if stream == 1 {
            Ok(Redirect::StdoutToFile(String::from_str(path), append))
        } else if stream == 2 {
            Ok(Redirect::StderrToFile(String::from_str(path), append))
        } else {
            Err(CmdError::new(ErrorKind::Build, "unsupported stream in redirect"))
        }
    }

    /// The directive for making stream `old_fd` an alias of stream `new_fd`:
    /// standard output of standard error, or standard error of standard
    /// output. A stream as its own alias needs no directive. Any other pair
    /// is an error.
    pub fn to_stream(old_fd: i32, new_fd: i32) -> (r: Result<Option<Redirect>, CmdError>)
        ensures
            match alias_redirect(old_fd as int, new_fd as int) {
                Ok(Some(d)) => r matches Ok(Some(x)) && x@ == d,
                Ok(None) => r matches Ok(None),
                Err(e) => r matches Err(f) && f@ == e,
            },
    {
        if old_fd == new_fd {
            Ok(None)
        } else if old_fd == 1 && new_fd == 2 {
            Ok(Some(Redirect::StdoutToStderr))
        } else if old_fd == 2 && new_fd == 1 {
            Ok(Some(Redirect::StderrToStdout))
        } else {
            Err(CmdError::new(ErrorKind::Build, "unsupported stream in redirect"))
        }
    }
}

/// One of the three standard streams.
#[derive(Clone, Copy, Debug, PartialEq, Eq, Structural)]
pub enum Stream {
    Stdin,
    Stdout,
    Stderr,
}

/// An end of one of the pipes that the driver creates around a stage.
#[derive(Clone, Copy, Debug, PartialEq, Eq, Structural)]
pub enum PipeEnd {
    /// Read end of the pipe that the previous stage writes to.
    Previous,
    /// Write end of the pipe that the next stage reads from.
    Next,
    /// Write end of the pipe from which the driver collects the chain's
    /// output.
    Output,
    /// Write end of the stage's own pipe for standard error, which the driver
    /// reads for diagnostics.
    Log,
}

/// What a standard stream of a stage is bound to. A descriptor names the
/// endpoint; two streams with the same descriptor share one endpoint, and the
/// driver duplicates the handle for the second.
#[derive(Clone, Copy, Debug, PartialEq, Eq, Structural)]
pub enum Stdio {
    /// A duplicate of the driver's own stream.
    Inherited(Stream),
    /// An end of a pipe.
    Pipe(PipeEnd),
    /// The file opened for the directive at this position in the stage's
    /// list of directives.
    File(usize),
    /// The sink that discards what is written and reads as empty.
    Null,
}

/// A file to open for a stage: the position of the directive that names it,
/// and the mode.
#[derive(Clone, Copy, Debug, PartialEq, Eq, Structural)]
pub struct FileOpen {
    pub directive: usize,
    pub mode: OpenMode,
}

/// The bindings of a stage's three streams, and the files to open for them,
/// in the order in which they are to be opened.
#[derive(Debug)]
pub struct Wiring {
    pub stdin: Stdio,
    pub stdout: Stdio,
    pub stderr: Stdio,
    pub opens: Vec<FileOpen>,
}

/// A [`Wiring`] as contracts see it.
pub struct WiringView {
    pub stdin: Stdio,
    pub stdout: Stdio,
    pub stderr: Stdio,
    pub opens: Seq<FileOpen>,
}

impl View for Wiring {
    type V = WiringView;

    open spec fn view(&self) -> WiringView {
        WiringView {
            stdin: self.stdin,
            stdout: self.stdout,
            stderr: self.stderr,
            opens: self.opens@,
        }
    }
}

/// The bindings before any directive is applied. Standard input reads the
/// previous stage's pipe if there is one. Standard output feeds the next
/// stage if there is one; on the last stage it is collected if the chain's
/// output is wanted. Standard error always goes to the stage's own pipe.
pub open spec fn initial_wiring(pipe_in: bool, pipe_out: bool, with_output: bool) -> WiringView {
    WiringView {
        stdin: if pipe_in {
            Stdio::Pipe(PipeEnd::Previous)
        } else {
            Stdio::Inherited(Stream::Stdin)
        },
        stdout: if pipe_out {
            Stdio::Pipe(PipeEnd::Next)
        } else if with_output {
            Stdio::Pipe(PipeEnd::Output)
        } else {
            Stdio::Inherited(Stream::Stdout)
        },
        stderr: Stdio::Pipe(PipeEnd::Log),
        opens: Seq::empty(),
    }
}

/// The target of a directive that names a file: the null sink for the null
/// path, else the file opened for the directive at position `at`.
pub open spec fn file_target(path: Seq<char>, at: int) -> Stdio {
    if is_null_path(path) {
        Stdio::Null
    } else {
        Stdio::File(at as usize)
    }
}

/// The files to open after the directive at position `at` has been applied.
pub open spec fn opens_after(opens: Seq<FileOpen>, redirect: RedirectView, at: int) -> Seq<
    FileOpen,
> {
    match redirect_open(redirect) {
        Some(mode) => opens.push(FileOpen { directive: at as usize, mode }),
        None => opens,
    }
}

/// The bindings after the directive at position `at` has been applied. A
/// cross-stream directive copies what the other stream is bound to at that
/// moment; what is declared later for the other stream does not reach it.
pub open spec fn apply_redirect(w: WiringView, redirect: RedirectView, at: int) -> WiringView {
    let opens = opens_after(w.opens, redirect, at);
    match redirect {
        RedirectView::FileToStdin(path) => WiringView {
            stdin: file_target(path, at),
            opens,
            ..w
        },
        RedirectView::StdoutToStderr => WiringView { stdout: w.stderr, ..w },
        RedirectView::StderrToStdout => WiringView { stderr: w.stdout, ..w },
        RedirectView::StdoutToFile(path, _) => WiringView {
            stdout: file_target(path, at),
            opens,
            ..w
        },
        RedirectView::StderrToFile(path, _) => WiringView {
            stderr: file_target(path, at),
            opens,
            ..w
        },
    }
}

/// The bindings after the first `n` directives have been applied, in the
/// order in which they were declared.
pub open spec fn wired(
    redirects: Seq<RedirectView>,
    n: int,
    pipe_in: bool,
    pipe_out: bool,
    with_output: bool,
) -> WiringView
    decreases n,
{
    if n <= 0 {
        initial_wiring(pipe_in, pipe_out, with_output)
    } else {
        apply_redirect(
            wired(redirects, n - 1, pipe_in, pipe_out, with_output),
            redirects[n - 1],
            n - 1,
        )
    }
}

/// The bindings of a stage with the given directives.
pub open spec fn wiring_of(
    redirects: Seq<RedirectView>,
    pipe_in: bool,
    pipe_out: bool,
    with_output: bool,
) -> WiringView {
    wired(redirects, redirects.len() as int, pipe_in, pipe_out, with_output)
}

/// `opens` lists directives of `redirects` that name a file other than the
/// null path, each with the mode that the directive asks for, in rising
/// order of position.
pub open spec fn opens_follow(opens: Seq<FileOpen>, redirects: Seq<RedirectView>) -> bool {
    &&& forall|i: int|
        0 <= i < opens.len() ==> (#[trigger] opens[i]).directive < redirects.len()
            && redirect_open(redirects[opens[i].directive as int]) == Some(opens[i].mode)
    &&& forall|i: int, j: int|
        0 <= i < j < opens.len() ==> (#[trigger] opens[i]).directive < (
        #[trigger] opens[j]).directive
}

/// A stream bound to a file is bound to one that `opens` lists.
pub open spec fn bound_to_opened(stream: Stdio, opens: Seq<FileOpen>) -> bool {
    stream matches Stdio::File(k) ==> exists|i: int|
        0 <= i < opens.len() && (#[trigger] opens[i]).directive == k
}

/// The bindings are sound: the files to open follow the directives, and no
/// stream is bound to a file that is not opened.
pub open spec fn wiring_sound(w: WiringView, redirects: Seq<RedirectView>) -> bool {
    &&& opens_follow(w.opens, redirects)
    &&& bound_to_opened(w.stdin, w.opens)
    &&& bound_to_opened(w.stdout, w.opens)
    &&& bound_to_opened(w.stderr, w.opens)
}

/// Every file in `opens` belongs to a directive before position `n`.
pub open spec fn opens_below(opens: Seq<FileOpen>, n: int) -> bool {
    forall|i: int| 0 <= i < opens.len() ==> (#[trigger] opens[i]).directive < n
}

/// Applying one more directive keeps the bindings sound.
pub proof fn lemma_apply_sound(w: WiringView, redirects: Seq<RedirectView>, at: int)
    requires
        0 <= at < redirects.len(),
        redirects.len() <= usize::MAX,
        wiring_sound(w, redirects),
        opens_below(w.opens, at),
    ensures
        wiring_sound(apply_redirect(w, redirects[at], at), redirects),
        opens_below(apply_redirect(w, redirects[at], at).opens, at + 1),
{
    let redirect = redirects[at];
    let after = apply_redirect(w, redirect, at);
    let opens = opens_after(w.opens, redirect, at);
    assert(after.opens == opens);
    assert forall|i: int| 0 <= i < w.opens.len() implies opens[i] == w.opens[i] by {}
    assert(opens_below(opens, at + 1)) by {
        assert forall|i: int| 0 <= i < opens.len() implies (#[trigger] opens[i]).directive < at
            + 1 by {
            if i < w.opens.len() {
                assert(opens[i] == w.opens[i]);
            }
        }
    }
    assert(opens_follow(opens, redirects)) by {
        assert forall|i: int| 0 <= i < opens.len() implies (#[trigger] opens[i]).directive
            < redirects.len() && redirect_open(redirects[opens[i].directive as int]) == Some(
            opens[i].mode,
        ) by {
            if i < w.opens.len() {
                assert(opens[i] == w.opens[i]);
            }
        }
        assert forall|i: int, j: int| 0 <= i < j < opens.len() implies (
        #[trigger] opens[i]).directive < (#[trigger] opens[j]).directive by {
            assert(opens[i] == w.opens[i]);
            if j < w.opens.len() {
                assert(opens[j] == w.opens[j]);
            }
        }
    }
    lemma_bound_kept(w.stdin, w.opens, opens);
    lemma_bound_kept(w.stdout, w.opens, opens);
    lemma_bound_kept(w.stderr, w.opens, opens);
    if redirect_open(redirect) is Some {
        let last = opens.len() - 1;
        assert(opens[last].directive == at);
        assert(bound_to_opened(Stdio::File(at as usize), opens));
    }
}

/// A stream that is bound to an opened file stays so when more files are
/// opened.
proof fn lemma_bound_kept(stream: Stdio, before: Seq<FileOpen>, after: Seq<FileOpen>)
    requires
        bound_to_opened(stream, before),
        before.len() <= after.len(),
        forall|i: int| 0 <= i < before.len() ==> after[i] == before[i],
    ensures
        bound_to_opened(stream, after),
{
    if let Stdio::File(k) = stream {
        let i = choose|i: int| 0 <= i < before.len() && (#[trigger] before[i]).directive == k;
        assert(after[i] == before[i]);
    }
}

/// Whatever the directives, the bindings that they give are sound, and no
/// file is opened for a position past the directives applied.
pub proof fn lemma_wired_sound(
    redirects: Seq<RedirectView>,
    n: int,
    pipe_in: bool,
    pipe_out: bool,
    with_output: bool,
)
    requires
        0 <= n <= redirects.len(),
        redirects.len() <= usize::MAX,
    ensures
        wiring_sound(wired(redirects, n, pipe_in, pipe_out, with_output), redirects),
        opens_below(wired(redirects, n, pipe_in, pipe_out, with_output).opens, n),
    decreases n,
{
    if n > 0 {
        lemma_wired_sound(redirects, n - 1, pipe_in, pipe_out, with_output);
        lemma_apply_sound(
            wired(redirects, n - 1, pipe_in, pipe_out, with_output),
            redirects,
            n - 1,
        );
    }
}

/// Works out what the three streams of a stage are bound to.
///
/// `pipe_in` says that a previous stage feeds this one, `pipe_out` that a
/// next stage reads from it, `with_output` that the chain's output is
/// collected. The pipes come first: standard input, then standard output,
/// then standard error. Then the directives are applied in the order in
/// which they were declared.
pub fn setup_redirects(
    redirects: &Vec<Redirect>,
    pipe_in: bool,
    pipe_out: bool,
    with_output: bool,
) -> (w: Wiring)
    ensures
        w@ == wiring_of(redirect_views(redirects@), pipe_in, pipe_out, with_output),
        wiring_sound(w@, redirect_views(redirects@)),
{
    let mut stdin = if pipe_in {
        Stdio::Pipe(PipeEnd::Previous)
    } else {
        Stdio::Inherited(Stream::Stdin)
    };
    let mut stdout = if pipe_out {
        Stdio::Pipe(PipeEnd::Next)
    } else if with_output {
        Stdio::Pipe(PipeEnd::Output)
    } else {
        Stdio::Inherited(Stream::Stdout)
    };
    let mut stderr = Stdio::Pipe(PipeEnd::Log);
    let mut opens: Vec<FileOpen> = Vec::new();
    let ghost views = redirect_views(redirects@);
    let mut i: usize = 0;
    while i < redirects.len()
        invariant
            i <= redirects.len(),
            views == redirect_views(redirects@),
            (WiringView { stdin, stdout, stderr, opens: opens@ }) == wired(
                views,
                i as int,
                pipe_in,
                pipe_out,
                with_output,
            ),
        decreases redirects.len() - i,
    {
        let redirect = &redirects[i];
        let open = redirect.open_file();
        let target = match open {
            Some(_) => Stdio::File(i),
            None => Stdio::Null,
        };
        match open {
            Some(mode) => {
                opens.push(FileOpen { directive: i, mode });
            },
            None => {},
        }
        match redirect {
            Redirect::FileToStdin(_) => {
                stdin = target;
            },
            Redirect::StdoutToStderr => {
                stdout = stderr;
            },
            Redirect::StderrToStdout => {
                stderr = stdout;
            },
            Redirect::StdoutToFile(_, _) => {
                stdout = target;
            },
            Redirect::StderrToFile(_, _) => {
                stderr = target;
            },
        }
        proof {
            assert(views[i as int] == redirect@);
        }
        i += 1;
    }
    proof {
        lemma_wired_sound(views, views.len() as int, pipe_in, pipe_out, with_output);
    }
    Wiring { stdin, stdout, stderr, opens }
}

} // verus!
