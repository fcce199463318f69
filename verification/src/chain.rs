//! A pipe chain: stages joined by pipes and run as one pipeline.
//!
//! Running a chain is a conversation between the library and a driver. The
//! library says what to do next ([`ChainRun::step`]); the driver does it
//! (looks at a directory, starts a process or a builtin command, waits for
//! a stage) and answers with what happened. Each answer is given to the
//! value that asked, so a run cannot be answered out of turn.

use vstd::prelude::*;
use vstd::string::*;
use crate::dir::{enter_dir, DirProbe, DirProbeView};
use crate::env::{CmdEnv, CmdEnvView};
use crate::error::{
    cmd_result_view, fun_result_view, CmdError, CmdErrorView, CmdResult, ErrorKind, FunResult,
};
use crate::redirect::{wiring_of, wiring_sound, Wiring, WiringView};
use crate::stage::{empty_stage_error, Cmd, CmdView, Launch, Resolution};
use crate::text::{is_trim_end_of, join, lemma_join_push, trim_end, trimmed};

verus! {

/// The diagnostic text of a chain: the texts of its stages with ` | `
/// between neighbours.
pub open spec fn chain_text(cmds: Seq<CmdView>) -> Seq<char> {
    join(Seq::new(cmds.len(), |i: int| cmds[i].cmd_str()), " | "@)
}

/// Whether a failure of the chain is kept from spreading: so it is where the
/// first stage carries the ignore token. The token on a later stage has no
/// effect.
pub open spec fn chain_ignores(cmds: Seq<CmdView>) -> bool {
    cmds.len() > 0 && cmds[0].has_ignore()
}

/// The views of a list of stages, in order.
pub open spec fn cmd_views(cmds: Seq<Cmd>) -> Seq<CmdView> {
    Seq::new(cmds.len(), |i: int| cmds[i]@)
}

/// Stages joined by pipes. A chain is built by value and run once.
#[derive(Debug)]
pub struct Cmds {
    cmds: Vec<Cmd>,
    full_cmds: String,
    ignore_error: bool,
}

impl View for Cmds {
    type V = Seq<CmdView>;

    closed spec fn view(&self) -> Seq<CmdView> {
        cmd_views(self.cmds@)
    }
}

impl Default for Cmds {
    /// A chain without stages.
    fn default() -> (r: Cmds)
        ensures
            r@ == Seq::<CmdView>::empty(),
    {
        let r = Cmds { cmds: Vec::new(), full_cmds: String::new(), ignore_error: false };
        proof {
            assert(r@ =~= Seq::<CmdView>::empty());
            assert(Seq::new(r@.len(), |i: int| r@[i].cmd_str()) =~= Seq::<Seq<char>>::empty());
        }
        r
    }
}

impl Cmds {
    #[verifier::type_invariant]
    spec fn well_formed(&self) -> bool {
        &&& self.full_cmds@ == chain_text(self@)
        &&& self.ignore_error == chain_ignores(self@)
    }

    /// Appends a stage.
    pub fn pipe(self, cmd: Cmd) -> (r: Cmds)
        ensures
            r@ == self@.push(cmd@),
    {
        proof {
            use_type_invariant(&self);
        }
        let ghost before = self@;
        let Cmds { mut cmds, mut full_cmds, mut ignore_error } = self;
        let first = cmds.len() == 0;
        if !first {
            full_cmds.append(" | ");
        }
        full_cmds.append(cmd.cmd_str().as_str());
        let (ignore, _) = cmd.gen_command();
        if ignore && first {
            ignore_error = true;
        }
        cmds.push(cmd);
        proof {
            let after = cmd_views(cmds@);
            assert(after =~= before.push(cmd@));
            let texts = Seq::new(before.len(), |i: int| before[i].cmd_str());
            assert(Seq::new(after.len(), |i: int| after[i].cmd_str()) =~= texts.push(
                cmd@.cmd_str(),
            ));
            lemma_join_push(texts, cmd@.cmd_str(), " | "@);
            assert(full_cmds@ == chain_text(after));
            assert(ignore_error == chain_ignores(after));
        }
        Cmds { cmds, full_cmds, ignore_error }
    }

    /// The number of stages.
    pub fn len(&self) -> (r: usize)
        ensures
            r == self@.len(),
    {
        self.cmds.len()
    }

    /// The stage at position `i`.
    pub fn stage(&self, i: usize) -> (r: &Cmd)
        requires
            i < self@.len(),
        ensures
            r@ == self@[i as int],
    {
        &self.cmds[i]
    }

    /// The diagnostic text of the chain.
    pub fn get_full_cmds(&self) -> (r: &str)
        ensures
            r@ == chain_text(self@),
    {
        proof {
            use_type_invariant(self);
        }
        self.full_cmds.as_str()
    }

    /// Whether a failure of the chain is kept from spreading.
    pub fn ignore_error(&self) -> (r: bool)
        ensures
            r == chain_ignores(self@),
    {
        proof {
            use_type_invariant(self);
        }
        self.ignore_error
    }

    /// Begins a run of the chain in the working directory `current_dir`.
    /// `with_output` says whether the output of the last stage is collected.
    /// Nothing is started yet: the run says what to do, step by step.
    pub fn spawn(self, current_dir: String, with_output: bool) -> (r: ChainRun)
        ensures
            r@ == ChainRunView::begin(self@, current_dir@, with_output),
    {
        let r = ChainRun {
            chain: self,
            with_output,
            current_dir,
            children: Vec::new(),
            aborted: false,
        };
        proof {
            assert(r@.children =~= Seq::<ChildView>::empty());
        }
        r
    }

    /// Begins a run of the chain whose output is collected.
    pub fn spawn_with_output(self, current_dir: String) -> (r: ChainRun)
        ensures
            r@ == ChainRunView::begin(self@, current_dir@, true),
    {
        self.spawn(current_dir, true)
    }

    /// Begins a run of the chain as a command: its output is not collected,
    /// and [`Finished::wait`] gives what it comes to.
    pub fn run_cmd(self, current_dir: String) -> (r: ChainRun)
        ensures
            r@ == ChainRunView::begin(self@, current_dir@, false),
    {
        self.spawn(current_dir, false)
    }

    /// Begins a run of the chain as a function: the output of the last stage
    /// is collected, and [`Finished::wait_with_output`] gives it.
    pub fn run_fun(self, current_dir: String) -> (r: ChainRun)
        ensures
            r@ == ChainRunView::begin(self@, current_dir@, true),
    {
        self.spawn_with_output(current_dir)
    }
}

/// How a stage ended: with success, or with failure and the text that says
/// why.
pub type StageOutcome = Result<(), String>;

/// A [`StageOutcome`] as contracts see it.
pub open spec fn outcome_view(outcome: StageOutcome) -> Result<(), Seq<char>> {
    match outcome {
        Ok(_) => Ok(()),
        Err(why) => Err(why@),
    }
}

/// Where a stage of a running chain stands.
#[derive(Debug)]
pub enum Child {
    /// It was started and has not been waited for.
    Running,
    /// It ended.
    Exited(StageOutcome),
    /// It could not be started.
    Failed(CmdError),
}

/// A [`Child`] as contracts see it.
pub enum ChildView {
    Running,
    Exited(Result<(), Seq<char>>),
    Failed(CmdErrorView),
}

impl View for Child {
    type V = ChildView;

    open spec fn view(&self) -> ChildView {
        match self {
            Child::Running => ChildView::Running,
            Child::Exited(outcome) => ChildView::Exited(outcome_view(*outcome)),
            Child::Failed(e) => ChildView::Failed(e@),
        }
    }
}

/// The views of a list of children, in order.
pub open spec fn child_views(children: Seq<Child>) -> Seq<ChildView> {
    Seq::new(children.len(), |i: int| children[i]@)
}

/// What the driver reports after it tried to start a stage.
#[derive(Debug)]
pub enum Started {
    /// The process or the thread runs.
    Running,
    /// A builtin command was run inline and has ended.
    Finished(StageOutcome),
    /// The stage could not be started; the text says why.
    Failed(String),
}

/// A [`Started`] as contracts see it.
pub enum StartedView {
    Running,
    Finished(Result<(), Seq<char>>),
    Failed(Seq<char>),
}

impl View for Started {
    type V = StartedView;

    open spec fn view(&self) -> StartedView {
        match self {
            Started::Running => StartedView::Running,
            Started::Finished(outcome) => StartedView::Finished(outcome_view(*outcome)),
            Started::Failed(why) => StartedView::Failed(why@),
        }
    }
}

/// The error of the first child from `i` on that could not be started.
pub open spec fn first_failed(children: Seq<ChildView>, i: int) -> Option<CmdErrorView>
    decreases children.len() - i,
{
    if i < 0 || i >= children.len() {
        None
    } else {
        match children[i] {
            ChildView::Failed(e) => Some(e),
            _ => first_failed(children, i + 1),
        }
    }
}

/// The first child from `i` on that ended with failure: its position and
/// the text that says why.
pub open spec fn first_exit_failure(children: Seq<ChildView>, i: int) -> Option<(int, Seq<char>)>
    decreases children.len() - i,
{
    if i < 0 || i >= children.len() {
        None
    } else {
        match children[i] {
            ChildView::Exited(Err(why)) => Some((i, why)),
            _ => first_exit_failure(children, i + 1),
        }
    }
}

/// The last child, if that ended with failure: its position and the text
/// that says why.
pub open spec fn last_exit_failure(children: Seq<ChildView>) -> Option<(int, Seq<char>)> {
    if children.len() > 0 {
        match children.last() {
            ChildView::Exited(Err(why)) => Some((children.len() - 1, why)),
            _ => None,
        }
    } else {
        None
    }
}

/// The diagnostic text of the stage at position `at`.
pub open spec fn stage_text(cmds: Seq<CmdView>, at: int) -> Seq<char> {
    if 0 <= at < cmds.len() {
        cmds[at].cmd_str()
    } else {
        Seq::empty()
    }
}

/// The error for the stage at position `at` that ran and ended with
/// failure: it names the stage and says why it failed.
pub open spec fn exit_error(cmds: Seq<CmdView>, at: int, why: Seq<char>) -> CmdErrorView {
    CmdErrorView {
        kind: ErrorKind::Runtime,
        message: "Running "@ + stage_text(cmds, at) + " failed: "@ + why,
    }
}

/// The position of the first child from `i` on that runs; the number of
/// children if none does.
pub open spec fn first_running(children: Seq<ChildView>, i: int) -> int
    decreases children.len() - i,
{
    if i < 0 || i >= children.len() {
        children.len() as int
    } else if children[i] is Running {
        i
    } else {
        first_running(children, i + 1)
    }
}

/// The error with which a failed start is reported. The failure to create a
/// process, a pipe or a file is reported with the whole chain's text, unless
/// the chain's failure is kept from spreading.
pub open spec fn start_error(e: CmdErrorView, text: Seq<char>, ignore: bool) -> CmdErrorView {
    if e.kind == ErrorKind::Spawn && !ignore {
        CmdErrorView {
            kind: ErrorKind::Spawn,
            message: "Spawning "@ + text + " failed: "@ + e.message,
        }
    } else {
        e
    }
}

/// The error of a chain in which a stage could not be started; none where
/// every stage dealt with so far was started.
pub open spec fn start_failure(cmds: Seq<CmdView>, children: Seq<ChildView>) -> Option<
    CmdErrorView,
> {
    match first_failed(children, 0) {
        Some(e) => Some(start_error(e, chain_text(cmds), chain_ignores(cmds))),
        None => None,
    }
}

/// What a chain comes to once every stage that was started has ended.
///
/// A stage that could not be started fails the chain. Else, with `pipefail`
/// the first stage that ended with failure fails the chain; without it only
/// the last stage counts.
pub open spec fn chain_result(
    cmds: Seq<CmdView>,
    children: Seq<ChildView>,
    pipefail: bool,
) -> Result<(), CmdErrorView> {
    match start_failure(cmds, children) {
        Some(e) => Err(e),
        None => {
            let failure = if pipefail {
                first_exit_failure(children, 0)
            } else {
                last_exit_failure(children)
            };
            match failure {
                Some((at, why)) => Err(exit_error(cmds, at, why)),
                None => Ok(()),
            }
        },
    }
}

/// What a chain yields as a function, from what it comes to as a command
/// and from what its last stage wrote: on success that text without its
/// trailing whitespace.
pub open spec fn chain_output(result: Result<(), CmdErrorView>, captured: Seq<char>) -> Result<
    Seq<char>,
    CmdErrorView,
> {
    match result {
        Ok(_) => Ok(trimmed(captured)),
        Err(e) => Err(e),
    }
}

/// Whether the stage ran and ended with failure.
pub open spec fn ended_with_failure(child: ChildView) -> bool {
    child matches ChildView::Exited(Err(_))
}

/// In a chain whose stages all ended with success, no stage failed to start
/// and none ended with failure.
proof fn lemma_no_failure(children: Seq<ChildView>, i: int)
    requires
        forall|k: int| 0 <= k < children.len() ==> children[k] == ChildView::Exited(Ok(())),
    ensures
        first_failed(children, i) is None,
        first_exit_failure(children, i) is None,
    decreases children.len() - i,
{
    if 0 <= i < children.len() {
        lemma_no_failure(children, i + 1);
    }
}

/// A chain whose stages all ended with success succeeds, however many
/// stages it has and whatever the failure policy.
pub proof fn lemma_all_success(cmds: Seq<CmdView>, children: Seq<ChildView>, pipefail: bool)
    requires
        forall|k: int| 0 <= k < children.len() ==> children[k] == ChildView::Exited(Ok(())),
    ensures
        chain_result(cmds, children, pipefail) is Ok,
{
    lemma_no_failure(children, 0);
}

/// Where every stage was started, none counts as failed to start.
proof fn lemma_all_started(children: Seq<ChildView>, i: int)
    requires
        forall|k: int| 0 <= k < children.len() ==> !(children[k] is Failed),
    ensures
        first_failed(children, i) is None,
    decreases children.len() - i,
{
    if 0 <= i < children.len() {
        lemma_all_started(children, i + 1);
    }
}

/// The first stage from `i` on that ended with failure is the one at `at`,
/// where all before it did not.
proof fn lemma_first_exit_failure(children: Seq<ChildView>, i: int, at: int, why: Seq<char>)
    requires
        0 <= i <= at < children.len(),
        children[at] == ChildView::Exited(Err(why)),
        forall|k: int| 0 <= k < at ==> !ended_with_failure(#[trigger] children[k]),
    ensures
        first_exit_failure(children, i) == Some((at, why)),
    decreases at - i,
{
    if i < at {
        lemma_first_exit_failure(children, i + 1, at, why);
    }
}

/// With pipefail, a chain in which every stage was started fails as soon as
/// one stage ended with failure, whatever later stages did, and reports the
/// first such stage.
pub proof fn lemma_pipefail_first_failure(
    cmds: Seq<CmdView>,
    children: Seq<ChildView>,
    at: int,
    why: Seq<char>,
)
    requires
        forall|k: int| 0 <= k < children.len() ==> !(children[k] is Failed),
        0 <= at < children.len(),
        children[at] == ChildView::Exited(Err(why)),
        forall|k: int| 0 <= k < at ==> !ended_with_failure(#[trigger] children[k]),
    ensures
        chain_result(cmds, children, true) == Err::<(), CmdErrorView>(
            exit_error(cmds, at, why),
        ),
{
    lemma_all_started(children, 0);
    lemma_first_exit_failure(children, 0, at, why);
}

/// Without pipefail, a chain in which every stage was started comes to what
/// its last stage came to: it succeeds exactly when the last stage did not
/// end with failure, whatever the stages before it did.
pub proof fn lemma_without_pipefail_last_counts(cmds: Seq<CmdView>, children: Seq<ChildView>)
    requires
        forall|k: int| 0 <= k < children.len() ==> !(children[k] is Failed),
        children.len() > 0,
    ensures
        chain_result(cmds, children, false) is Ok <==> !ended_with_failure(children.last()),
{
    lemma_all_started(children, 0);
}

/// A running chain as contracts see it.
pub struct ChainRunView {
    /// The stages.
    pub cmds: Seq<CmdView>,
    /// Whether the output of the last stage is collected.
    pub with_output: bool,
    /// The working directory, as the stages so far have left it.
    pub current_dir: Seq<char>,
    /// The stages dealt with so far, from the left: one entry each.
    pub children: Seq<ChildView>,
    /// Whether starting has been given up because a stage could not be
    /// started.
    pub aborted: bool,
}

impl ChainRunView {
    /// The run of `cmds` before anything has been done.
    pub open spec fn begin(cmds: Seq<CmdView>, current_dir: Seq<char>, with_output: bool) -> Self {
        ChainRunView { cmds, with_output, current_dir, children: Seq::empty(), aborted: false }
    }

    /// Whether there is a stage left to start. Stages are started from the
    /// left, and none is started after one could not be.
    pub open spec fn starting(self) -> bool {
        !self.aborted && self.children.len() < self.cmds.len()
    }

    /// The stage to start next.
    pub open spec fn stage(self) -> CmdView {
        self.cmds[self.children.len() as int]
    }

    /// The error by which the next stage is refused before the driver is
    /// asked for anything: it has no command name, or it changes the
    /// directory and does not name exactly one.
    pub open spec fn refusal(self) -> Option<CmdErrorView> {
        if !self.starting() {
            None
        } else {
            match self.stage().resolution() {
                Resolution::Empty => Some(empty_stage_error()),
                Resolution::ChangeDir => match self.stage().cd_request(self.current_dir) {
                    Err(e) => Some(e),
                    Ok(_) => None,
                },
                _ => None,
            }
        }
    }

    /// The run after the next stage could not be started: no further stage
    /// is started.
    pub open spec fn fail(self, e: CmdErrorView) -> Self {
        ChainRunView { children: self.children.push(ChildView::Failed(e)), aborted: true, ..self }
    }

    /// The run after a refusal of the next stage, if there is one, has been
    /// recorded.
    pub open spec fn settled(self) -> Self {
        match self.refusal() {
            Some(e) => self.fail(e),
            None => self,
        }
    }

    /// What the streams of the next stage are bound to: it reads the
    /// previous stage's pipe unless it is the first, and feeds the next
    /// stage unless it is the last.
    pub open spec fn wiring(self) -> WiringView {
        wiring_of(
            self.stage().redirects,
            self.children.len() > 0,
            self.children.len() + 1 < self.cmds.len(),
            self.with_output,
        )
    }

    /// How the next stage is started; `None` where nothing is started for
    /// it.
    pub open spec fn launch(self) -> Option<Launch> {
        self.stage().launch(self.cmds.len() == 1, self.with_output)
    }

    /// The run after the driver looked at the directory that the next
    /// stage asks for. On success the working directory is that directory
    /// for every stage that follows, and the stage has ended with success.
    pub open spec fn probed(self, probe: DirProbeView) -> Self {
        match self.stage().cd_result(self.current_dir, probe) {
            Ok(dir) => ChainRunView {
                current_dir: dir,
                children: self.children.push(ChildView::Exited(Ok(()))),
                ..self
            },
            Err(e) => self.fail(e),
        }
    }

    /// The run after the driver tried to start the next stage.
    pub open spec fn started(self, started: StartedView) -> Self {
        match started {
            StartedView::Running => ChainRunView {
                children: self.children.push(ChildView::Running),
                ..self
            },
            StartedView::Finished(outcome) => ChainRunView {
                children: self.children.push(ChildView::Exited(outcome)),
                ..self
            },
            StartedView::Failed(why) => self.fail(
                CmdErrorView { kind: ErrorKind::Spawn, message: why },
            ),
        }
    }

    /// The run after the stage at position `i` has ended.
    pub open spec fn exited(self, i: int, outcome: Result<(), Seq<char>>) -> Self {
        ChainRunView { children: self.children.update(i, ChildView::Exited(outcome)), ..self }
    }

    /// What the chain comes to.
    pub open spec fn result(self, pipefail: bool) -> Result<(), CmdErrorView> {
        chain_result(self.cmds, self.children, pipefail)
    }
}

/// A stage that feeds another stage, or whose output the driver collects,
/// never runs on the driving thread: what it writes is read while it runs.
/// So in a chain of two or more stages, and in a chain whose output is
/// collected, every builtin command gets a thread of its own.
pub proof fn lemma_piped_stage_never_inline(run: ChainRunView)
    requires
        run.cmds.len() >= 2 || run.with_output,
    ensures
        run.launch() != Some(Launch::Inline),
        run.stage().resolution() == Resolution::Builtin ==> run.launch() == Some(Launch::Thread),
{
}

/// A change of directory that succeeds holds for every stage that follows
/// in the chain; one that fails leaves the working directory as it was and
/// ends the starting of stages.
pub proof fn lemma_directory_change_in_chain(run: ChainRunView, probe: DirProbeView)
    requires
        run.starting(),
    ensures
        run.stage().cd_result(run.current_dir, probe) matches Ok(dir) ==> run.probed(
            probe,
        ).current_dir == dir && !run.probed(probe).aborted,
        run.stage().cd_result(run.current_dir, probe) is Err ==> run.probed(probe).current_dir
            == run.current_dir && !run.probed(probe).starting(),
{
}

/// A run deals with its next stage as spawning that stage says. Where
/// spawning is an error whatever the driver finds, the stage is refused with
/// that error. Where the stage changes the directory, the run after the
/// driver's look at the directory has the working directory that spawning
/// gives, or has failed with the error that spawning gives. For a stage that
/// is started, spawning gives the way in which the run asks for it to be
/// started.
pub proof fn lemma_run_spawns_as_the_stage_does(run: ChainRunView, probe: DirProbeView)
    requires
        run.starting(),
    ensures
        match run.stage().spawned(
            run.current_dir,
            probe,
            run.cmds.len() == 1,
            run.with_output,
        ) {
            Ok((dir, launch)) => {
                &&& run.refusal() is None
                &&& launch == run.launch()
                &&& launch is None ==> run.probed(probe).current_dir == dir && !run.probed(
                    probe,
                ).aborted
                &&& launch is Some ==> dir == run.current_dir
            },
            Err(e) => {
                ||| run.refusal() == Some(e)
                ||| run.refusal() is None && run.probed(probe) == run.fail(e)
            },
        },
{
}

/// After a stage could not be started no further stage is started: the run
/// only waits for the stages that run.
pub proof fn lemma_failed_start_ends_starting(run: ChainRunView, e: CmdErrorView)
    ensures
        !run.fail(e).starting(),
        run.fail(e).settled() == run.fail(e),
        run.fail(e).result(true) is Err,
        run.fail(e).result(false) is Err,
{
    let after = run.fail(e);
    let at = run.children.len() as int;
    assert(after.children[at] == ChildView::Failed(e));
    lemma_first_failed_some(after.children, 0, at);
}

/// Where a stage from `i` on could not be started, the first such stage is
/// found.
proof fn lemma_first_failed_some(children: Seq<ChildView>, i: int, at: int)
    requires
        0 <= i <= at < children.len(),
        children[at] is Failed,
    ensures
        first_failed(children, i) is Some,
    decreases at - i,
{
    if i < at {
        lemma_first_failed_some(children, i + 1, at);
    }
}

/// What the driver is asked to do next.
pub enum NextStep {
    /// Look at the directory that the next stage wants to change to.
    ChangeDir,
    /// Start the next stage.
    Launch,
    /// Wait for the stage at that position.
    Wait(int),
    /// Nothing.
    Done,
}

/// What the driver is asked to do next in the state `run`: first what is to
/// be refused is refused; then, while stages are left to start, the next
/// one is dealt with; then the leftmost stage that runs is waited for.
pub open spec fn next_step(run: ChainRunView) -> NextStep {
    let s = run.settled();
    if s.starting() {
        if s.stage().resolution() == Resolution::ChangeDir {
            NextStep::ChangeDir
        } else {
            NextStep::Launch
        }
    } else if first_running(s.children, 0) < s.children.len() {
        NextStep::Wait(first_running(s.children, 0))
    } else {
        NextStep::Done
    }
}

/// A chain that is being run: its stages, the working directory, and where
/// each stage dealt with so far stands.
#[derive(Debug)]
pub struct ChainRun {
    chain: Cmds,
    with_output: bool,
    current_dir: String,
    children: Vec<Child>,
    aborted: bool,
}

impl View for ChainRun {
    type V = ChainRunView;

    closed spec fn view(&self) -> ChainRunView {
        ChainRunView {
            cmds: self.chain@,
            with_output: self.with_output,
            current_dir: self.current_dir@,
            children: child_views(self.children@),
            aborted: self.aborted,
        }
    }
}

/// What the driver is to do next for a running chain.
#[derive(Debug)]
pub enum Step {
    /// Look at the directory that the next stage wants to change to.
    ChangeDir(DirChange),
    /// Start the next stage.
    Launch(Launching),
    /// Wait for a stage that runs.
    Wait(Waiting),
    /// Nothing: every stage that was started has ended.
    Done(Finished),
}

/// What a step asks of the driver.
pub open spec fn step_kind(step: Step) -> NextStep {
    match step {
        Step::ChangeDir(_) => NextStep::ChangeDir,
        Step::Launch(_) => NextStep::Launch,
        Step::Wait(w) => NextStep::Wait(w.index()),
        Step::Done(_) => NextStep::Done,
    }
}

/// A run that waits for the driver to look at a directory.
#[derive(Debug)]
pub struct DirChange {
    run: ChainRun,
    dir: String,
}

/// A run that waits for the driver to start its next stage.
#[derive(Debug)]
pub struct Launching {
    run: ChainRun,
}

/// A run that waits for one of its stages to end.
#[derive(Debug)]
pub struct Waiting {
    run: ChainRun,
    index: usize,
}

/// A run in which every stage that was started has ended.
#[derive(Debug)]
pub struct Finished {
    run: ChainRun,
}

impl ChainRun {
    /// The diagnostic text of the chain.
    pub fn get_full_cmds(&self) -> (r: &str)
        ensures
            r@ == chain_text(self@.cmds),
    {
        self.chain.get_full_cmds()
    }

    /// The working directory, as the stages so far have left it.
    pub fn current_dir(&self) -> (r: &str)
        ensures
            r@ == self@.current_dir,
    {
        self.current_dir.as_str()
    }

    /// The error of the failed start, where a stage could not be started.
    fn start_failure(&self) -> (r: Option<CmdError>)
        ensures
            match start_failure(self@.cmds, self@.children) {
                Some(e) => r matches Some(f) && f@ == e,
                None => r is None,
            },
    {
        let mut i: usize = 0;
        while i < self.children.len()
            invariant
                i <= self.children.len(),
                first_failed(self@.children, 0) == first_failed(self@.children, i as int),
            decreases self.children.len() - i,
        {
            match &self.children[i] {
                Child::Failed(e) => {
                    if matches!(e.kind, ErrorKind::Spawn) && !self.chain.ignore_error() {
                        let message = String::from_str("Spawning ").concat(
                            self.chain.get_full_cmds(),
                        ).concat(" failed: ").concat(e.message.as_str());
                        return Some(CmdError { kind: ErrorKind::Spawn, message });
                    }
                    return Some(e.duplicate());
                },
                _ => {},
            }
            i += 1;
        }
        None
    }

    fn first_running(&self) -> (r: usize)
        ensures
            r == first_running(self@.children, 0),
            r <= self.children.len(),
            r < self.children.len() ==> self@.children[r as int] is Running,
    {
        let mut i: usize = 0;
        while i < self.children.len()
            invariant
                i <= self.children.len(),
                first_running(self@.children, 0) == first_running(self@.children, i as int),
            decreases self.children.len() - i,
        {
            match &self.children[i] {
                Child::Running => {
                    return i;
                },
                _ => {},
            }
            i += 1;
        }
        i
    }

    /// Says what the driver is to do next.
    ///
    /// While there is a stage left to start, and none has failed to start,
    /// the next stage is dealt with: it is refused if it has no command name
    /// or asks for a change of directory without naming exactly one; else
    /// the driver is asked to look at the directory or to start the stage.
    /// After that the stages that run are waited for, from the left.
    pub fn step(self) -> (r: Step)
        ensures
            step_kind(r) == next_step(self@),
            match r {
                Step::ChangeDir(c) => {
                    &&& self@.settled() == self@
                    &&& self@.starting()
                    &&& self@.stage().resolution() == Resolution::ChangeDir
                    &&& c.state() == self@
                    &&& self@.stage().cd_request(self@.current_dir) == Ok::<
                        Seq<char>,
                        CmdErrorView,
                    >(c.dir())
                },
                Step::Launch(l) => {
                    &&& self@.settled() == self@
                    &&& self@.starting()
                    &&& (self@.stage().resolution() == Resolution::Builtin
                        || self@.stage().resolution() == Resolution::Process)
                    &&& l.state() == self@
                },
                Step::Wait(w) => {
                    &&& !self@.settled().starting()
                    &&& w.state() == self@.settled()
                    &&& w.index() == first_running(self@.settled().children, 0)
                    &&& w.index() < self@.settled().children.len()
                },
                Step::Done(f) => {
                    &&& !self@.settled().starting()
                    &&& f.state() == self@.settled()
                    &&& first_running(self@.settled().children, 0) == self@.settled().children.len()
                },
            },
    {
        let ghost before = self@;
        let mut run = self;
        if !run.aborted && run.children.len() < run.chain.len() {
            let at = run.children.len();
            let resolution = run.chain.stage(at).resolve();
            let refusal = match resolution {
                Resolution::Empty => Some(CmdError::new(ErrorKind::Build, "empty command")),
                Resolution::ChangeDir => {
                    match run.chain.stage(at).cd_target(run.current_dir.as_str()) {
                        Ok(dir) => {
                            return Step::ChangeDir(DirChange { run, dir });
                        },
                        Err(e) => Some(e),
                    }
                },
                _ => None,
            };
            match refusal {
                Some(e) => {
                    run.children.push(Child::Failed(e));
                    run.aborted = true;
                    proof {
                        assert(run@.children =~= before.children.push(ChildView::Failed(e@)));
                    }
                },
                None => {
                    return Step::Launch(Launching { run });
                },
            }
        }
        let index = run.first_running();
        if index < run.children.len() {
            Step::Wait(Waiting { run, index })
        } else {
            Step::Done(Finished { run })
        }
    }
}

impl DirChange {
    #[verifier::type_invariant]
    spec fn well_formed(&self) -> bool {
        &&& self.run@.starting()
        &&& self.run@.stage().cd_request(self.run@.current_dir) == Ok::<Seq<char>, CmdErrorView>(
            self.dir@,
        )
    }

    /// The run that asked.
    pub closed spec fn state(&self) -> ChainRunView {
        self.run@
    }

    /// The directory to look at.
    pub closed spec fn dir(&self) -> Seq<char> {
        self.dir@
    }

    /// The directory to look at: does it exist, and may it be traversed?
    pub fn target(&self) -> (r: &str)
        ensures
            r@ == self.dir(),
    {
        self.dir.as_str()
    }

    /// The stage that asks for the change.
    pub fn stage(&self) -> (r: &Cmd)
        ensures
            r@ == self.state().stage(),
    {
        proof {
            use_type_invariant(self);
        }
        self.run.chain.stage(self.run.children.len())
    }

    /// Whether the stage is the last of its chain, so that no pipe leads on
    /// from it.
    pub fn is_last(&self) -> (r: bool)
        ensures
            r == (self.state().children.len() + 1 == self.state().cmds.len()),
    {
        proof {
            use_type_invariant(self);
        }
        self.run.chain.len() - self.run.children.len() == 1
    }

    /// Whether the chain's output is collected.
    pub fn with_output(&self) -> (r: bool)
        ensures
            r == self.state().with_output,
    {
        self.run.with_output
    }

    /// The bindings of the stage's streams. The stage starts nothing, but
    /// its pipes and files are made as for any stage, and given up at once.
    pub fn wiring(&self) -> (w: Wiring)
        ensures
            w@ == self.state().wiring(),
            wiring_sound(w@, self.state().stage().redirects),
    {
        proof {
            use_type_invariant(self);
        }
        stage_wiring(&self.run)
    }

    /// Takes the driver's answer where the pipes and files of the stage
    /// could not be made; the text says why. That is a failed start: the
    /// working directory stays, and no further stage is started.
    pub fn failed(self, why: String) -> (r: ChainRun)
        ensures
            r@ == self.state().started(StartedView::Failed(why@)),
    {
        let ghost before = self.run@;
        let DirChange { mut run, dir: _ } = self;
        let e = CmdError { kind: ErrorKind::Spawn, message: why };
        run.children.push(Child::Failed(e));
        run.aborted = true;
        proof {
            assert(run@.children =~= before.children.push(ChildView::Failed(e@)));
        }
        run
    }

    /// Takes the driver's answer. Where the directory exists and may be
    /// traversed, it is the working directory from now on.
    pub fn probed(self, probe: DirProbe) -> (r: ChainRun)
        ensures
            r@ == self.state().probed(probe@),
    {
        proof {
            use_type_invariant(&self);
        }
        let ghost before = self.run@;
        let DirChange { mut run, dir } = self;
        match enter_dir(dir, probe) {
            Ok(dir) => {
                run.current_dir = dir;
                run.children.push(Child::Exited(Ok(())));
                proof {
                    assert(run@.children =~= before.children.push(ChildView::Exited(Ok(()))));
                }
            },
            Err(e) => {
                run.children.push(Child::Failed(e));
                run.aborted = true;
                proof {
                    assert(run@.children =~= before.children.push(ChildView::Failed(e@)));
                }
            },
        }
        run
    }
}

/// The bindings of the streams of the stage that `run` starts next.
fn stage_wiring(run: &ChainRun) -> (w: Wiring)
    requires
        run@.starting(),
    ensures
        w@ == run@.wiring(),
        wiring_sound(w@, run@.stage().redirects),
{
    let at = run.children.len();
    let count = run.chain.len();
    run.chain.stage(at).setup_redirects(at > 0, count - at > 1, run.with_output)
}

impl Launching {
    #[verifier::type_invariant]
    spec fn well_formed(&self) -> bool {
        &&& self.run@.starting()
        &&& (self.run@.stage().resolution() == Resolution::Builtin
            || self.run@.stage().resolution() == Resolution::Process)
    }

    /// The run that asked.
    pub closed spec fn state(&self) -> ChainRunView {
        self.run@
    }

    /// The position of the stage to start.
    pub fn index(&self) -> (r: usize)
        ensures
            r == self.state().children.len(),
    {
        self.run.children.len()
    }

    /// The stage to start.
    pub fn stage(&self) -> (r: &Cmd)
        ensures
            r@ == self.state().stage(),
    {
        proof {
            use_type_invariant(self);
        }
        self.run.chain.stage(self.run.children.len())
    }

    /// Whether the stage is the last of its chain, so that no pipe leads on
    /// from it.
    pub fn is_last(&self) -> (r: bool)
        ensures
            r == (self.state().children.len() + 1 == self.state().cmds.len()),
    {
        proof {
            use_type_invariant(self);
        }
        self.run.chain.len() - self.run.children.len() == 1
    }

    /// Whether the chain's output is collected.
    pub fn with_output(&self) -> (r: bool)
        ensures
            r == self.state().with_output,
    {
        self.run.with_output
    }

    /// How to start the stage: it runs a builtin command or a process.
    pub fn mode(&self) -> (r: Launch)
        ensures
            Some(r) == self.state().launch(),
    {
        proof {
            use_type_invariant(self);
        }
        let sole = self.run.chain.len() == 1;
        match self.run.chain.stage(self.run.children.len()).launch(sole, self.run.with_output) {
            Some(launch) => launch,
            None => Launch::Process,
        }
    }

    /// The bindings of the stage's streams.
    pub fn wiring(&self) -> (w: Wiring)
        ensures
            w@ == self.state().wiring(),
            wiring_sound(w@, self.state().stage().redirects),
    {
        proof {
            use_type_invariant(self);
        }
        stage_wiring(&self.run)
    }

    /// The working directory in which to start the stage; empty where the
    /// stage runs in the driver's own.
    pub fn current_dir(&self) -> (r: &str)
        ensures
            r@ == self.state().current_dir,
    {
        self.run.current_dir.as_str()
    }

    /// The execution context for the stage's builtin command. `own_dir` is
    /// the driver's own working directory, which the command gets where the
    /// chain has not changed to another.
    pub fn env<I, O>(&self, own_dir: &str, stdin: I, stdout: O, stderr: O) -> (r: CmdEnv<I, O>)
        ensures
            r@ == (CmdEnvView {
                stdin,
                stdout,
                stderr,
                args: self.state().stage().argv(),
                vars: self.state().stage().vars,
                current_dir: if self.state().current_dir.len() == 0 {
                    own_dir@
                } else {
                    self.state().current_dir
                },
            }),
    {
        proof {
            use_type_invariant(self);
        }
        let stage = self.run.chain.stage(self.run.children.len());
        if self.run.current_dir.as_str().is_empty() {
            stage.env(own_dir, stdin, stdout, stderr)
        } else {
            stage.env(self.run.current_dir.as_str(), stdin, stdout, stderr)
        }
    }

    /// Takes the driver's answer. A stage that could not be started ends the
    /// starting of stages.
    pub fn started(self, started: Started) -> (r: ChainRun)
        ensures
            r@ == self.state().started(started@),
    {
        let ghost before = self.run@;
        let Launching { mut run } = self;
        match started {
            Started::Running => {
                run.children.push(Child::Running);
                proof {
                    assert(run@.children =~= before.children.push(ChildView::Running));
                }
            },
            Started::Finished(outcome) => {
                let ghost o = outcome_view(outcome);
                run.children.push(Child::Exited(outcome));
                proof {
                    assert(run@.children =~= before.children.push(ChildView::Exited(o)));
                }
            },
            Started::Failed(why) => {
                let e = CmdError { kind: ErrorKind::Spawn, message: why };
                run.children.push(Child::Failed(e));
                run.aborted = true;
                proof {
                    assert(run@.children =~= before.children.push(ChildView::Failed(e@)));
                }
            },
        }
        run
    }
}

impl Waiting {
    #[verifier::type_invariant]
    spec fn well_formed(&self) -> bool {
        self.index < self.run@.children.len()
    }

    /// The run that asked.
    pub closed spec fn state(&self) -> ChainRunView {
        self.run@
    }

    /// The position of the stage to wait for.
    pub closed spec fn index(&self) -> int {
        self.index as int
    }

    /// The position of the stage to wait for: the leftmost that runs.
    pub fn stage_index(&self) -> (r: usize)
        ensures
            r == self.index(),
    {
        self.index
    }

    /// The error of the failed start, where a stage could not be started.
    /// It carries the whole chain's text, unless the chain's failure is kept
    /// from spreading.
    pub fn start_failure(&self) -> (r: Option<CmdError>)
        ensures
            match start_failure(self.state().cmds, self.state().children) {
                Some(e) => r matches Some(f) && f@ == e,
                None => r is None,
            },
    {
        self.run.start_failure()
    }

    /// Takes the driver's answer: how the stage ended.
    pub fn exited(self, outcome: StageOutcome) -> (r: ChainRun)
        ensures
            r@ == self.state().exited(self.index(), outcome_view(outcome)),
    {
        proof {
            use_type_invariant(&self);
        }
        let ghost before = self.run@;
        let ghost o = outcome_view(outcome);
        let Waiting { mut run, index } = self;
        run.children.set(index, Child::Exited(outcome));
        proof {
            assert(run@.children =~= before.children.update(index as int, ChildView::Exited(o)));
        }
        run
    }
}

impl Finished {
    /// The run that has ended.
    pub closed spec fn state(&self) -> ChainRunView {
        self.run@
    }

    /// The diagnostic text of the chain.
    pub fn get_full_cmds(&self) -> (r: &str)
        ensures
            r@ == chain_text(self.state().cmds),
    {
        self.run.chain.get_full_cmds()
    }

    /// The working directory, as the chain has left it.
    pub fn current_dir(&self) -> (r: &str)
        ensures
            r@ == self.state().current_dir,
    {
        self.run.current_dir.as_str()
    }

    /// Whether a failure of the chain is kept from spreading.
    pub fn ignore_error(&self) -> (r: bool)
        ensures
            r == chain_ignores(self.state().cmds),
    {
        self.run.chain.ignore_error()
    }

    /// The error for the stage at position `at` that ended with failure.
    fn exit_error(&self, at: usize, why: &str) -> (r: CmdError)
        ensures
            r@ == exit_error(self.state().cmds, at as int, why@),
    {
        let mut message = String::from_str("Running ");
        if at < self.run.chain.len() {
            message.append(self.run.chain.stage(at).cmd_str().as_str());
        } else {
            proof {
                assert(message@ + Seq::<char>::empty() =~= message@);
            }
        }
        message.append(" failed: ");
        message.append(why);
        CmdError { kind: ErrorKind::Runtime, message }
    }

    /// The error of the failed start, where a stage could not be started.
    /// It carries the whole chain's text, unless the chain's failure is kept
    /// from spreading.
    pub fn start_failure(&self) -> (r: Option<CmdError>)
        ensures
            match start_failure(self.state().cmds, self.state().children) {
                Some(e) => r matches Some(f) && f@ == e,
                None => r is None,
            },
    {
        self.run.start_failure()
    }

    /// What the chain comes to as a command.
    ///
    /// A stage that could not be started fails the chain. Else, with
    /// `pipefail` the first stage that ended with failure fails the chain,
    /// though later ones succeeded; without it only the last stage counts.
    pub fn wait(&self, pipefail: bool) -> (r: CmdResult)
        ensures
            cmd_result_view(r) == self.state().result(pipefail),
    {
        match self.run.start_failure() {
            Some(e) => {
                return Err(e);
            },
            None => {},
        }
        let children = &self.run.children;
        if pipefail {
            let mut j: usize = 0;
            while j < children.len()
                invariant
                    j <= children.len(),
                    first_exit_failure(self.state().children, 0) == first_exit_failure(
                        self.state().children,
                        j as int,
                    ),
                    start_failure(self.state().cmds, self.state().children) is None,
                    pipefail,
                    self.state().children == child_views(children@),
                decreases children.len() - j,
            {
                match &children[j] {
                    Child::Exited(Err(why)) => {
                        return Err(self.exit_error(j, why.as_str()));
                    },
                    _ => {},
                }
                j += 1;
            }
            Ok(())
        } else {
            if children.len() > 0 {
                match &children[children.len() - 1] {
                    Child::Exited(Err(why)) => {
                        return Err(self.exit_error(children.len() - 1, why.as_str()));
                    },
                    _ => {},
                }
            }
            Ok(())
        }
    }

    /// What the chain comes to as a function: where it succeeds, `captured`
    /// (what the last stage wrote to the pipe for the chain's output)
    /// without its trailing whitespace; else the chain's error.
    pub fn wait_with_output(&self, captured: &str, pipefail: bool) -> (r: FunResult)
        ensures
            fun_result_view(r) == chain_output(self.state().result(pipefail), captured@),
            r matches Ok(text) ==> is_trim_end_of(text@, captured@),
    {
        match self.wait(pipefail) {
            Ok(_) => Ok(trim_end(captured)),
            Err(e) => Err(e),
        }
    }
}

} // verus!
