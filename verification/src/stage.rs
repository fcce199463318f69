//! A stage: one command of a pipe chain, built up argument by argument.

use vstd::prelude::*;
use vstd::string::*;
use crate::dir::{cd_outcome, enter_dir, join_path, joined_path, DirProbe, DirProbeView};
use crate::env::{CmdEnv, CmdEnvView};
use crate::error::{cmd_result_view, CmdError, CmdErrorView, CmdResult, ErrorKind};
use crate::redirect::{
    redirect_text, redirect_views, wiring_of, wiring_sound, Redirect, RedirectView, Wiring,
};
use crate::registry::Registry;
use crate::text::{
    assignment_key, assignment_value, debug_string, debug_text, is_assignment, join, join_from,
    split_assignment, views,
};
use crate::vars::{with_entry, CmdVars};

verus! {

/// Name of the command that changes the working directory.
pub const CD_CMD: &'static str = "cd";

/// The token that, put before a command, keeps its failure from spreading.
pub const IGNORE_CMD: &'static str = "ignore";

/// Whether `arg` is the ignore token.
pub open spec fn is_ignore(arg: Seq<char>) -> bool {
    arg == IGNORE_CMD@
}

/// `n` is where the command proper begins in `args`: everything before it is
/// an ignore token, and what stands at `n`, if anything, is none.
pub open spec fn is_command_start(args: Seq<Seq<char>>, n: int) -> bool {
    &&& 0 <= n <= args.len()
    &&& forall|i: int| 0 <= i < n ==> is_ignore(#[trigger] args[i])
    &&& n < args.len() ==> !is_ignore(args[n])
}

/// The position from `i` on at which the run of ignore tokens ends.
pub open spec fn command_start_from(args: Seq<Seq<char>>, i: int) -> int
    decreases args.len() - i,
{
    if 0 <= i < args.len() && is_ignore(args[i]) {
        command_start_from(args, i + 1)
    } else {
        i
    }
}

/// The number of ignore tokens at the front of `args`.
pub open spec fn command_start(args: Seq<Seq<char>>) -> int {
    command_start_from(args, 0)
}

proof fn lemma_command_start_from(args: Seq<Seq<char>>, i: int)
    requires
        0 <= i <= args.len(),
        forall|k: int| 0 <= k < i ==> is_ignore(#[trigger] args[k]),
    ensures
        is_command_start(args, command_start_from(args, i)),
    decreases args.len() - i,
{
    if i < args.len() && is_ignore(args[i]) {
        lemma_command_start_from(args, i + 1);
    }
}

/// The front run of ignore tokens ends where the command begins, and only
/// there.
pub proof fn lemma_command_start(args: Seq<Seq<char>>, n: int)
    ensures
        is_command_start(args, command_start(args)),
        is_command_start(args, n) ==> n == command_start(args),
{
    lemma_command_start_from(args, 0);
    let m = command_start(args);
    if is_command_start(args, n) {
        if n < m {
            assert(is_ignore(args[n]));
        } else if m < n {
            assert(is_ignore(args[m]));
        }
    }
}

/// A stage as contracts see it.
pub struct CmdView {
    /// Whether the command's name was found in the registry of builtin
    /// commands when it was appended; `true` while there is no name yet.
    pub in_cmd_map: bool,
    /// The tokens kept: ignore tokens, then the command's name, then its
    /// arguments.
    pub args: Seq<Seq<char>>,
    /// The variable overrides, each name once.
    pub vars: Seq<(Seq<char>, Seq<char>)>,
    /// The redirect directives, in the order of their declaration.
    pub redirects: Seq<RedirectView>,
    /// Flags for the creation of the process, where the platform has them.
    pub creation_flags: Option<u32>,
}

/// How a stage is run.
#[derive(Clone, Copy, Debug, PartialEq, Eq, Structural)]
pub enum Resolution {
    /// It has no command name, so there is nothing to run.
    Empty,
    /// It changes the working directory; no process or thread is made.
    ChangeDir,
    /// A builtin command runs in this process.
    Builtin,
    /// An executable is run as a process of its own.
    Process,
}

/// How a stage that can be started is started.
#[derive(Clone, Copy, Debug, PartialEq, Eq, Structural)]
pub enum Launch {
    /// The builtin command runs on the thread that drives the chain.
    Inline,
    /// The builtin command runs on a thread of its own.
    Thread,
    /// An executable is run as a process of its own.
    Process,
}

impl CmdView {
    /// A stage to which nothing has been added.
    pub open spec fn empty() -> CmdView {
        CmdView {
            in_cmd_map: true,
            args: Seq::empty(),
            vars: Seq::empty(),
            redirects: Seq::empty(),
            creation_flags: None,
        }
    }

    /// Whether the command's name has been appended.
    pub open spec fn has_command(self) -> bool {
        command_start(self.args) < self.args.len()
    }

    /// Whether the stage carries the ignore token.
    pub open spec fn has_ignore(self) -> bool {
        command_start(self.args) > 0
    }

    /// The command's name and its arguments.
    pub open spec fn argv(self) -> Seq<Seq<char>> {
        self.args.skip(command_start(self.args))
    }

    /// The command's name; empty where there is none.
    pub open spec fn arg0(self) -> Seq<char> {
        if self.has_command() {
            self.args[command_start(self.args)]
        } else {
            Seq::empty()
        }
    }

    /// The stage after `arg` was appended, where `registered` says whether
    /// the registry of builtin commands holds `arg`.
    ///
    /// Before the command's name stands, `KEY=VALUE` sets a variable
    /// override and is not kept as a token; any other token but the ignore
    /// token is the command's name, and the registry's answer for it is
    /// recorded. Every other token is kept as it is.
    pub open spec fn add_arg(self, arg: Seq<char>, registered: bool) -> CmdView {
        if !is_ignore(arg) && !self.has_command() {
            if is_assignment(arg) {
                CmdView {
                    vars: with_entry(self.vars, assignment_key(arg), assignment_value(arg)),
                    ..self
                }
            } else {
                CmdView { in_cmd_map: registered, args: self.args.push(arg), ..self }
            }
        } else {
            CmdView { args: self.args.push(arg), ..self }
        }
    }

    /// The stage after the first `n` of `args` were appended in turn, each
    /// looked up in `registry`.
    pub open spec fn add_args<F>(
        self,
        args: Seq<Seq<char>>,
        n: int,
        registry: Map<Seq<char>, F>,
    ) -> CmdView
        decreases n,
    {
        if n <= 0 {
            self
        } else {
            self.add_args(args, n - 1, registry).add_arg(
                args[n - 1],
                registry.contains_key(args[n - 1]),
            )
        }
    }

    /// How the stage is run: decided by the command's name, then by what the
    /// registry said when the name was appended.
    pub open spec fn resolution(self) -> Resolution {
        if !self.has_command() {
            Resolution::Empty
        } else if self.arg0() == CD_CMD@ {
            Resolution::ChangeDir
        } else if self.in_cmd_map {
            Resolution::Builtin
        } else {
            Resolution::Process
        }
    }

    /// How the stage is started: nothing is started for a stage that changes
    /// the directory or has no command name. A builtin command runs inline
    /// only where nothing reads what it writes while it runs: as the sole
    /// stage of a chain whose output is not collected.
    pub open spec fn launch(self, sole: bool, with_output: bool) -> Option<Launch> {
        match self.resolution() {
            Resolution::Empty | Resolution::ChangeDir => None,
            Resolution::Builtin => if sole && !with_output {
                Some(Launch::Inline)
            } else {
                Some(Launch::Thread)
            },
            Resolution::Process => Some(Launch::Process),
        }
    }

    /// The stage as diagnostics show it: the tokens, then in parentheses
    /// the variable overrides and the redirect directives, as far as there
    /// are any.
    pub open spec fn cmd_str(self) -> Seq<char> {
        args_text(self.args) + extra_text(self.vars, self.redirects)
    }

    /// The directory that the stage asks to change to, from `current_dir`;
    /// or the error, where it does not name exactly one directory.
    pub open spec fn cd_request(self, current_dir: Seq<char>) -> Result<Seq<char>, CmdErrorView> {
        if self.argv().len() <= 1 {
            Err(
                CmdErrorView {
                    kind: ErrorKind::DirectoryChange,
                    message: "cd: missing directory"@,
                },
            )
        } else if self.argv().len() > 2 {
            Err(
                CmdErrorView {
                    kind: ErrorKind::DirectoryChange,
                    message: "cd: too many arguments: "@ + self.cmd_str(),
                },
            )
        } else {
            Ok(joined_path(current_dir, self.argv()[1]))
        }
    }

    /// What the stage's change of directory comes to, from `current_dir` and
    /// given what the driver found at the directory asked for.
    pub open spec fn cd_result(self, current_dir: Seq<char>, probe: DirProbeView) -> Result<
        Seq<char>,
        CmdErrorView,
    > {
        match self.cd_request(current_dir) {
            Ok(dir) => cd_outcome(dir, probe),
            Err(e) => Err(e),
        }
    }

    /// What spawning the stage comes to, in the working directory
    /// `current_dir`: the working directory afterwards and how the stage is
    /// to be started, or the error.
    ///
    /// A stage without a command name is an error. A stage that changes the
    /// directory does so at once, given what the driver found at the
    /// directory asked for, and nothing is started for it. Any other stage
    /// leaves the working directory as it is and is started.
    pub open spec fn spawned(
        self,
        current_dir: Seq<char>,
        probe: DirProbeView,
        sole: bool,
        with_output: bool,
    ) -> Result<(Seq<char>, Option<Launch>), CmdErrorView> {
        match self.resolution() {
            Resolution::Empty => Err(empty_stage_error()),
            Resolution::ChangeDir => match self.cd_result(current_dir, probe) {
                Ok(dir) => Ok((dir, None)),
                Err(e) => Err(e),
            },
            _ => Ok((current_dir, self.launch(sole, with_output))),
        }
    }
}

/// The error for a stage that has no command name.
pub open spec fn empty_stage_error() -> CmdErrorView {
    CmdErrorView { kind: ErrorKind::Build, message: "empty command"@ }
}

/// `items` between square brackets, with a comma and a space between
/// neighbours.
pub open spec fn list_text(items: Seq<Seq<char>>) -> Seq<char> {
    "["@ + join(items, ", "@) + "]"@
}

/// The tokens of a stage as diagnostics show them.
pub open spec fn args_text(args: Seq<Seq<char>>) -> Seq<char> {
    list_text(Seq::new(args.len(), |i: int| debug_text(args[i])))
}

/// One variable override as diagnostics show it.
pub open spec fn var_text(entry: (Seq<char>, Seq<char>)) -> Seq<char> {
    debug_text(entry.0) + ": "@ + debug_text(entry.1)
}

/// The variable overrides of a stage as diagnostics show them.
pub open spec fn vars_text(vars: Seq<(Seq<char>, Seq<char>)>) -> Seq<char> {
    "{"@ + join(Seq::new(vars.len(), |i: int| var_text(vars[i])), ", "@) + "}"@
}

/// The redirect directives of a stage as diagnostics show them.
pub open spec fn redirects_text(redirects: Seq<RedirectView>) -> Seq<char> {
    list_text(Seq::new(redirects.len(), |i: int| redirect_text(redirects[i])))
}

/// What follows the tokens in a stage's diagnostic text.
pub open spec fn extra_text(
    vars: Seq<(Seq<char>, Seq<char>)>,
    redirects: Seq<RedirectView>,
) -> Seq<char> {
    if vars.len() == 0 && redirects.len() == 0 {
        Seq::empty()
    } else if redirects.len() == 0 {
        "("@ + vars_text(vars) + ")"@
    } else if vars.len() == 0 {
        "("@ + redirects_text(redirects) + ")"@
    } else {
        "("@ + vars_text(vars) + ", "@ + redirects_text(redirects) + ")"@
    }
}

/// Once the command's name stands, appending a token only appends it: what
/// the registry holds at that time changes nothing, and how the stage is run
/// stays as it was decided.
pub proof fn lemma_resolution_is_fixed(
    stage: CmdView,
    arg: Seq<char>,
    registered: bool,
    registered_later: bool,
)
    requires
        stage.has_command(),
    ensures
        stage.add_arg(arg, registered) == stage.add_arg(arg, registered_later),
        stage.add_arg(arg, registered).in_cmd_map == stage.in_cmd_map,
        stage.add_arg(arg, registered).has_command(),
        stage.add_arg(arg, registered).arg0() == stage.arg0(),
        stage.add_arg(arg, registered).resolution() == stage.resolution(),
{
    let after = stage.add_arg(arg, registered);
    let n = command_start(stage.args);
    lemma_command_start(stage.args, n);
    assert(after.args == stage.args.push(arg));
    assert(is_command_start(after.args, n)) by {
        assert forall|i: int| 0 <= i < n implies is_ignore(#[trigger] after.args[i]) by {
            assert(after.args[i] == stage.args[i]);
        }
        assert(after.args[n] == stage.args[n]);
    }
    lemma_command_start(after.args, n);
}

/// The same of two registries: a stage whose command name stands is not
/// changed by what is registered afterwards.
pub proof fn lemma_registration_after_name<F>(
    stage: CmdView,
    arg: Seq<char>,
    registry: Map<Seq<char>, F>,
    name: Seq<char>,
    func: F,
)
    requires
        stage.has_command(),
    ensures
        stage.add_arg(arg, registry.insert(name, func).contains_key(arg)) == stage.add_arg(
            arg,
            registry.contains_key(arg),
        ),
        stage.add_arg(arg, registry.insert(name, func).contains_key(arg)).resolution()
            == stage.resolution(),
{
    lemma_resolution_is_fixed(
        stage,
        arg,
        registry.insert(name, func).contains_key(arg),
        registry.contains_key(arg),
    );
}

/// A token that is consumed as a modifier is not passed on: the ignore token
/// and a variable override before the command's name leave the command's
/// name and arguments as they were.
pub proof fn lemma_modifiers_are_consumed(stage: CmdView, arg: Seq<char>, registered: bool)
    requires
        !stage.has_command(),
        is_ignore(arg) || is_assignment(arg),
    ensures
        !stage.add_arg(arg, registered).has_command(),
        stage.add_arg(arg, registered).argv() == Seq::<Seq<char>>::empty(),
        stage.add_arg(arg, registered).in_cmd_map == stage.in_cmd_map,
{
    let after = stage.add_arg(arg, registered);
    let n = command_start(stage.args);
    lemma_command_start(stage.args, n);
    if is_ignore(arg) {
        assert(after.args == stage.args.push(arg));
        assert(is_command_start(after.args, n + 1)) by {
            assert forall|i: int| 0 <= i < n + 1 implies is_ignore(#[trigger] after.args[i]) by {
                if i < n {
                    assert(after.args[i] == stage.args[i]);
                }
            }
        }
        lemma_command_start(after.args, n + 1);
    }
    assert(after.argv() =~= Seq::<Seq<char>>::empty());
}

/// The first token that is neither the ignore token nor a variable override
/// becomes the command's name, and the registry's answer for it is kept.
pub proof fn lemma_name_is_resolved_once(stage: CmdView, arg: Seq<char>, registered: bool)
    requires
        !stage.has_command(),
        !is_ignore(arg),
        !is_assignment(arg),
    ensures
        stage.add_arg(arg, registered).has_command(),
        stage.add_arg(arg, registered).arg0() == arg,
        stage.add_arg(arg, registered).in_cmd_map == registered,
        stage.add_arg(arg, registered).has_ignore() == stage.has_ignore(),
{
    let after = stage.add_arg(arg, registered);
    let n = command_start(stage.args);
    lemma_command_start(stage.args, n);
    assert(after.args == stage.args.push(arg));
    assert(is_command_start(after.args, n)) by {
        assert forall|i: int| 0 <= i < n implies is_ignore(#[trigger] after.args[i]) by {
            assert(after.args[i] == stage.args[i]);
        }
    }
    lemma_command_start(after.args, n);
}

/// A change of directory names exactly one directory. With none the error
/// reads "cd: missing directory"; with two or more it begins "cd: too many
/// arguments"; with one, the change succeeds where the driver found a
/// directory that may be traversed, and fails with "No such file or
/// directory" where it found none.
pub proof fn lemma_cd_validation(stage: CmdView, current_dir: Seq<char>, probe: DirProbeView)
    requires
        stage.has_command(),
    ensures
        stage.argv().len() == 1 ==> stage.cd_result(current_dir, probe) == Err::<
            Seq<char>,
            CmdErrorView,
        >(CmdErrorView { kind: ErrorKind::DirectoryChange, message: "cd: missing directory"@ }),
        stage.argv().len() > 2 ==> stage.cd_result(current_dir, probe) == Err::<
            Seq<char>,
            CmdErrorView,
        >(
            CmdErrorView {
                kind: ErrorKind::DirectoryChange,
                message: "cd: too many arguments: "@ + stage.cmd_str(),
            },
        ),
        stage.argv().len() == 2 && probe is Missing ==> stage.cd_result(current_dir, probe) == Err::<
            Seq<char>,
            CmdErrorView,
        >(
            CmdErrorView {
                kind: ErrorKind::DirectoryChange,
                message: "cd "@ + joined_path(current_dir, stage.argv()[1])
                    + ": No such file or directory"@,
            },
        ),
        stage.argv().len() == 2 && probe is Accessible ==> stage.cd_result(current_dir, probe)
            == Ok::<Seq<char>, CmdErrorView>(joined_path(current_dir, stage.argv()[1])),
{
}

/// For a stage that changes the directory nothing is started, whatever the
/// registry held for its name: spawning it either changes the working
/// directory or fails and leaves the working directory as it was.
pub proof fn lemma_change_dir_starts_nothing(
    stage: CmdView,
    current_dir: Seq<char>,
    probe: DirProbeView,
    sole: bool,
    with_output: bool,
)
    requires
        stage.resolution() == Resolution::ChangeDir,
    ensures
        stage.launch(sole, with_output) is None,
        match stage.spawned(current_dir, probe, sole, with_output) {
            Ok((dir, launch)) => launch is None && stage.cd_result(current_dir, probe) == Ok::<
                Seq<char>,
                CmdErrorView,
            >(dir),
            Err(e) => stage.cd_result(current_dir, probe) == Err::<Seq<char>, CmdErrorView>(e),
        },
{
}

/// A stage that is started runs a builtin command or a process, and
/// spawning it leaves the working directory as it is.
pub proof fn lemma_started_stage_keeps_directory(
    stage: CmdView,
    current_dir: Seq<char>,
    probe: DirProbeView,
    sole: bool,
    with_output: bool,
)
    ensures
        stage.launch(sole, with_output) is Some <==> (stage.resolution() == Resolution::Builtin
            || stage.resolution() == Resolution::Process),
        stage.launch(sole, with_output) is Some ==> stage.spawned(
            current_dir,
            probe,
            sole,
            with_output,
        ) == Ok::<(Seq<char>, Option<Launch>), CmdErrorView>(
            (current_dir, stage.launch(sole, with_output)),
        ),
{
}

/// One command of a pipe chain: its tokens, its variable overrides and its
/// redirect directives. A stage is built by value and used once.
#[derive(Debug)]
pub struct Cmd {
    in_cmd_map: bool,
    args: Vec<String>,
    vars: CmdVars,
    redirects: Vec<Redirect>,
    creation_flags: Option<u32>,
}

impl View for Cmd {
    type V = CmdView;

    closed spec fn view(&self) -> CmdView {
        CmdView {
            in_cmd_map: self.in_cmd_map,
            args: views(self.args@),
            vars: self.vars@,
            redirects: redirect_views(self.redirects@),
            creation_flags: self.creation_flags,
        }
    }
}

impl Default for Cmd {
    /// A stage to which nothing has been added.
    fn default() -> (r: Cmd)
        ensures
            r@ == CmdView::empty(),
    {
        let r = Cmd {
            in_cmd_map: true,
            args: Vec::new(),
            vars: CmdVars::new(),
            redirects: Vec::new(),
            creation_flags: None,
        };
        proof {
            assert(r@.args =~= Seq::<Seq<char>>::empty());
            assert(r@.redirects =~= Seq::<RedirectView>::empty());
        }
        r
    }
}

impl Cmd {
    /// The number of ignore tokens at the front.
    fn command_start(&self) -> (n: usize)
        ensures
            n == command_start(self@.args),
            n <= self.args.len(),
    {
        let mut n: usize = 0;
        while n < self.args.len() && self.args[n].as_str().eq(IGNORE_CMD)
            invariant
                n <= self.args.len(),
                forall|i: int| 0 <= i < n ==> is_ignore(#[trigger] views(self.args@)[i]),
            decreases self.args.len() - n,
        {
            n += 1;
        }
        proof {
            assert(n < self.args.len() ==> views(self.args@)[n as int] == self.args@[n as int]@);
            lemma_command_start(self@.args, n as int);
        }
        n
    }

    /// Appends one token.
    ///
    /// Before the command's name stands, `KEY=VALUE` sets a variable
    /// override, and the first token that is neither that nor the ignore
    /// token is the command's name: the registry is asked for it, once, and
    /// the answer is kept. All other tokens are kept as they are.
    pub fn add_arg<F>(self, arg: &str, registry: &Registry<F>) -> (r: Cmd)
        ensures
            r@ == self@.add_arg(arg@, registry@.contains_key(arg@)),
    {
        let ghost before = self@;
        let start = self.command_start();
        let Cmd { in_cmd_map, mut args, vars, redirects, creation_flags } = self;
        let mut in_cmd_map = in_cmd_map;
        let mut vars = vars;
        if !arg.eq(IGNORE_CMD) && start == args.len() {
            match split_assignment(arg) {
                Some(kv) => {
                    vars = vars.insert(kv.0.as_str(), kv.1.as_str());
                    return Cmd { in_cmd_map, args, vars, redirects, creation_flags };
                },
                None => {
                    in_cmd_map = registry.contains_key(arg);
                },
            }
        }
        args.push(String::from_str(arg));
        let r = Cmd { in_cmd_map, args, vars, redirects, creation_flags };
        proof {
            assert(r@.args =~= before.args.push(arg@));
        }
        r
    }

    /// Appends the tokens of `args` in turn.
    pub fn add_args<F>(self, args: &[&str], registry: &Registry<F>) -> (r: Cmd)
        ensures
            r@ == self@.add_args(
                Seq::new(args@.len(), |i: int| args@[i]@),
                args@.len() as int,
                registry@,
            ),
    {
        let ghost texts = Seq::new(args@.len(), |i: int| args@[i]@);
        let ghost start = self@;
        let mut cmd = self;
        let mut i: usize = 0;
        while i < args.len()
            invariant
                i <= args.len(),
                texts == Seq::new(args@.len(), |i: int| args@[i]@),
                cmd@ == start.add_args(texts, i as int, registry@),
            decreases args.len() - i,
        {
            cmd = cmd.add_arg(args[i], registry);
            i += 1;
        }
        cmd
    }

    /// Appends a redirect directive.
    pub fn add_redirect(self, redirect: Redirect) -> (r: Cmd)
        ensures
            r@ == (CmdView { redirects: self@.redirects.push(redirect@), ..self@ }),
    {
        let ghost before = self@;
        let Cmd { in_cmd_map, args, vars, mut redirects, creation_flags } = self;
        redirects.push(redirect);
        let r = Cmd { in_cmd_map, args, vars, redirects, creation_flags };
        proof {
            assert(r@.redirects =~= before.redirects.push(redirect@));
        }
        r
    }

    /// Sets the flags for the creation of the process. They are handed on to
    /// the driver, which uses them where the platform has such flags.
    pub fn add_creation_flags(self, flag: u32) -> (r: Cmd)
        ensures
            r@ == (CmdView { creation_flags: Some(flag), ..self@ }),
    {
        let Cmd { in_cmd_map, args, vars, redirects, creation_flags: _ } = self;
        Cmd { in_cmd_map, args, vars, redirects, creation_flags: Some(flag) }
    }

    /// The flags for the creation of the process, if any were set.
    pub fn creation_flags(&self) -> (r: Option<u32>)
        ensures
            r == self@.creation_flags,
    {
        self.creation_flags
    }

    /// Whether the registry of builtin commands held the command's name when
    /// it was appended.
    pub fn in_cmd_map(&self) -> (r: bool)
        ensures
            r == self@.in_cmd_map,
    {
        self.in_cmd_map
    }

    /// The variable overrides.
    pub fn vars(&self) -> (r: &CmdVars)
        ensures
            r@ == self@.vars,
    {
        &self.vars
    }

    /// The redirect directives, in the order of their declaration.
    pub fn redirects(&self) -> (r: &Vec<Redirect>)
        ensures
            redirect_views(r@) == self@.redirects,
    {
        &self.redirects
    }

    /// The command's name; empty where there is none.
    pub fn arg0(&self) -> (r: String)
        ensures
            r@ == self@.arg0(),
    {
        let start = self.command_start();
        if start < self.args.len() {
            self.args[start].clone()
        } else {
            String::new()
        }
    }

    /// Whether the stage carries the ignore token, and the command's name
    /// with its arguments.
    pub fn gen_command(&self) -> (r: (bool, Vec<String>))
        ensures
            r.0 == self@.has_ignore(),
            views(r.1@) == self@.argv(),
    {
        let start = self.command_start();
        let mut argv: Vec<String> = Vec::new();
        let mut i: usize = start;
        while i < self.args.len()
            invariant
                start <= i <= self.args.len(),
                argv.len() == i - start,
                forall|k: int| 0 <= k < argv.len() ==> argv@[k]@ == self.args@[start + k]@,
            decreases self.args.len() - i,
        {
            argv.push(self.args[i].clone());
            i += 1;
        }
        proof {
            assert(views(argv@) =~= self@.argv());
        }
        (start > 0, argv)
    }

    /// How the stage is run.
    pub fn resolve(&self) -> (r: Resolution)
        ensures
            r == self@.resolution(),
    {
        let start = self.command_start();
        if start >= self.args.len() {
            Resolution::Empty
        } else if self.args[start].as_str().eq(CD_CMD) {
            Resolution::ChangeDir
        } else if self.in_cmd_map {
            Resolution::Builtin
        } else {
            Resolution::Process
        }
    }

    /// How the stage is started; `None` for a stage for which nothing is
    /// started: one that changes the directory, and one without a command
    /// name. `sole` says that it is the only stage of its chain,
    /// `with_output` that the chain's output is collected.
    pub fn launch(&self, sole: bool, with_output: bool) -> (r: Option<Launch>)
        ensures
            r == self@.launch(sole, with_output),
    {
        match self.resolve() {
            Resolution::Empty => None,
            Resolution::ChangeDir => None,
            Resolution::Builtin => {
                if sole && !with_output {
                    Some(Launch::Inline)
                } else {
                    Some(Launch::Thread)
                }
            },
            Resolution::Process => Some(Launch::Process),
        }
    }

    /// Spawns the stage in the working directory `current_dir`, as far as
    /// that is decided here.
    ///
    /// A stage that changes the directory does so at once: no process and
    /// no thread is made for it, and no builtin command is called. `probe`
    /// is what the driver found at the directory that [`Cmd::cd_target`]
    /// names; it is looked at for such a stage only. On success
    /// `current_dir` is that directory and the answer is `None`. Any other
    /// stage leaves `current_dir` as it is, and the answer says how the
    /// driver is to start it. On an error `current_dir` is unchanged.
    pub fn spawn(
        &self,
        current_dir: &mut String,
        probe: DirProbe,
        sole: bool,
        with_output: bool,
    ) -> (r: Result<Option<Launch>, CmdError>)
        ensures
            match self@.spawned(old(current_dir)@, probe@, sole, with_output) {
                Ok((dir, launch)) => r matches Ok(l) && l == launch && final(current_dir)@ == dir,
                Err(e) => r matches Err(f) && f@ == e && final(current_dir)@ == old(
                    current_dir,
                )@,
            },
    {
        match self.resolve() {
            Resolution::Empty => Err(CmdError::new(ErrorKind::Build, "empty command")),
            Resolution::ChangeDir => match self.run_cd_cmd(current_dir, probe) {
                Ok(_) => Ok(None),
                Err(e) => Err(e),
            },
            _ => Ok(self.launch(sole, with_output)),
        }
    }

    /// The stage as diagnostics show it.
    pub fn cmd_str(&self) -> (r: String)
        ensures
            r@ == self@.cmd_str(),
    {
        let mut quoted: Vec<String> = Vec::new();
        let mut i: usize = 0;
        while i < self.args.len()
            invariant
                i <= self.args.len(),
                quoted.len() == i,
                forall|k: int| 0 <= k < i ==> quoted@[k]@ == debug_text(self.args@[k]@),
            decreases self.args.len() - i,
        {
            quoted.push(debug_string(self.args[i].as_str()));
            i += 1;
        }
        let mut ret = bracketed("[", &quoted, "]");
        proof {
            assert(views(quoted@) =~= Seq::new(
                self@.args.len(),
                |i: int| debug_text(self@.args[i]),
            ));
        }
        let has_vars = !self.vars.is_empty();
        let has_redirects = self.redirects.len() > 0;
        if has_vars || has_redirects {
            ret.append("(");
            if has_vars {
                let mut shown: Vec<String> = Vec::new();
                let mut j: usize = 0;
                let count = self.vars.len();
                while j < count
                    invariant
                        j <= count,
                        count == self.vars@.len(),
                        shown.len() == j,
                        forall|k: int| 0 <= k < j ==> shown@[k]@ == var_text(self.vars@[k]),
                    decreases count - j,
                {
                    let entry = debug_string(self.vars.key_at(j)).concat(": ").concat(
                        debug_string(self.vars.value_at(j)).as_str(),
                    );
                    shown.push(entry);
                    j += 1;
                }
                proof {
                    assert(views(shown@) =~= Seq::new(
                        self@.vars.len(),
                        |i: int| var_text(self@.vars[i]),
                    ));
                }
                ret.append(bracketed("{", &shown, "}").as_str());
            }
            if has_redirects {
                if has_vars {
                    ret.append(", ");
                }
                let mut shown: Vec<String> = Vec::new();
                let mut j: usize = 0;
                while j < self.redirects.len()
                    invariant
                        j <= self.redirects.len(),
                        shown.len() == j,
                        forall|k: int|
                            0 <= k < j ==> shown@[k]@ == redirect_text(self.redirects@[k]@),
                    decreases self.redirects.len() - j,
                {
                    shown.push(self.redirects[j].describe());
                    j += 1;
                }
                proof {
                    assert(views(shown@) =~= Seq::new(
                        self@.redirects.len(),
                        |i: int| redirect_text(self@.redirects[i]),
                    ));
                }
                ret.append(bracketed("[", &shown, "]").as_str());
            }
            ret.append(")");
        }
        proof {
            assert(ret@ =~= self@.cmd_str());
        }
        ret
    }

    /// Works out what the three streams of the stage are bound to. `pipe_in`
    /// says that a previous stage feeds this one, `pipe_out` that a next
    /// stage reads from it, `with_output` that the chain's output is
    /// collected.
    pub fn setup_redirects(&self, pipe_in: bool, pipe_out: bool, with_output: bool) -> (w: Wiring)
        ensures
            w@ == wiring_of(self@.redirects, pipe_in, pipe_out, with_output),
            wiring_sound(w@, self@.redirects),
    {
        crate::redirect::setup_redirects(&self.redirects, pipe_in, pipe_out, with_output)
    }

    /// The directory that the stage asks to change to, from `current_dir`.
    /// It must name exactly one directory after the command's name.
    pub fn cd_target(&self, current_dir: &str) -> (r: Result<String, CmdError>)
        ensures
            match self@.cd_request(current_dir@) {
                Ok(dir) => r matches Ok(d) && d@ == dir,
                Err(e) => r matches Err(f) && f@ == e,
            },
    {
        let start = self.command_start();
        let given = self.args.len() - start;
        proof {
            assert(self@.argv().len() == given);
        }
        if given <= 1 {
            Err(CmdError::new(ErrorKind::DirectoryChange, "cd: missing directory"))
        } else if given > 2 {
            let message = String::from_str("cd: too many arguments: ").concat(
                self.cmd_str().as_str(),
            );
            Err(CmdError { kind: ErrorKind::DirectoryChange, message })
        } else {
            proof {
                assert(self@.argv()[1] == self.args@[start + 1]@);
            }
            Ok(join_path(current_dir, self.args[start + 1].as_str()))
        }
    }

    /// Changes the working directory as the stage asks, given what the
    /// driver found at the directory that [`Cmd::cd_target`] names. On
    /// success `current_dir` is that directory; on failure it is unchanged.
    pub fn run_cd_cmd(&self, current_dir: &mut String, probe: DirProbe) -> (r: CmdResult)
        ensures
            match self@.cd_result(old(current_dir)@, probe@) {
                Ok(dir) => r is Ok && final(current_dir)@ == dir,
                Err(e) => cmd_result_view(r) == Err::<(), CmdErrorView>(e) && final(current_dir)@
                    == old(current_dir)@,
            },
    {
        match self.cd_target(current_dir.as_str()) {
            Ok(dir) => match enter_dir(dir, probe) {
                Ok(dir) => {
                    *current_dir = dir;
                    Ok(())
                },
                Err(e) => Err(e),
            },
            Err(e) => Err(e),
        }
    }

    /// The execution context for the stage's builtin command: the command's
    /// name and arguments, the variable overrides, the working directory and
    /// the three handles given.
    pub fn env<I, O>(&self, current_dir: &str, stdin: I, stdout: O, stderr: O) -> (r: CmdEnv<I, O>)
        ensures
            r@ == (CmdEnvView {
                stdin,
                stdout,
                stderr,
                args: self@.argv(),
                vars: self@.vars,
                current_dir: current_dir@,
            }),
    {
        let (_, argv) = self.gen_command();
        CmdEnv::new(
            argv,
            self.vars.duplicate(),
            String::from_str(current_dir),
            stdin,
            stdout,
            stderr,
        )
    }
}

/// `items` joined with a comma and a space, between `open` and `close`.
pub fn bracketed(open: &str, items: &Vec<String>, close: &str) -> (r: String)
    ensures
        r@ == open@ + join(views(items@), ", "@) + close@,
{
    let mut out = String::from_str(open);
    let inner = join_from(items, 0, ", ");
    proof {
        assert(views(items@).skip(0) =~= views(items@));
    }
    out.append(inner.as_str());
    out.append(close);
    out
}

} // verus!
