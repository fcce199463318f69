//! A sequential group: chains run one after the other, in one working
//! directory that they share.

use vstd::prelude::*;
use vstd::string::*;
use crate::chain::{
    chain_ignores, chain_output, ChainRun, ChainRunView, Cmds, Finished,
};
use crate::error::{fun_result_view, CmdErrorView, FunResult};
use crate::stage::CmdView;

verus! {

/// A group as contracts see it.
pub struct GroupCmdsView {
    /// The chains, in the order in which they run.
    pub chains: Seq<Seq<CmdView>>,
    /// The working directory in which the first chain starts; empty for the
    /// driver's own.
    pub current_dir: Seq<char>,
}

/// The views of a list of chains, in order.
pub open spec fn chain_views(chains: Seq<Cmds>) -> Seq<Seq<CmdView>> {
    Seq::new(chains.len(), |i: int| chains[i]@)
}

/// Chains that run in sequence and share one working directory. A group is
/// built by value and run once.
#[derive(Debug)]
pub struct GroupCmds {
    group_cmds: Vec<Cmds>,
    current_dir: String,
}

impl View for GroupCmds {
    type V = GroupCmdsView;

    closed spec fn view(&self) -> GroupCmdsView {
        GroupCmdsView { chains: chain_views(self.group_cmds@), current_dir: self.current_dir@ }
    }
}

impl Default for GroupCmds {
    /// A group without chains, in the driver's own working directory.
    fn default() -> (r: GroupCmds)
        ensures
            r@ == (GroupCmdsView { chains: Seq::empty(), current_dir: Seq::empty() }),
    {
        let r = GroupCmds { group_cmds: Vec::new(), current_dir: String::new() };
        proof {
            assert(r@.chains =~= Seq::<Seq<CmdView>>::empty());
        }
        r
    }
}

/// A group that is being run, as contracts see it.
pub struct GroupRunView {
    /// The chains that have not been handed out yet.
    pub chains: Seq<Seq<CmdView>>,
    /// The working directory, as the chains so far have left it.
    pub current_dir: Seq<char>,
    /// Whether the output of the last chain is collected.
    pub capture: bool,
    /// What the group comes to, once that is settled.
    pub result: Option<Result<Seq<char>, CmdErrorView>>,
}

impl GroupRunView {
    /// The run of the group `group` before anything has been done.
    pub open spec fn begin(group: GroupCmdsView, capture: bool) -> Self {
        GroupRunView {
            chains: group.chains,
            current_dir: group.current_dir,
            capture,
            result: None,
        }
    }

    /// Whether there is a chain left to run.
    pub open spec fn running(self) -> bool {
        self.result is None && self.chains.len() > 0
    }

    /// What the group comes to when no chain is left to run.
    pub open spec fn outcome(self) -> Result<Seq<char>, CmdErrorView> {
        match self.result {
            Some(r) => r,
            None => Ok(Seq::empty()),
        }
    }

    /// The run of the chain that is handed out next: it starts in the
    /// group's working directory, and its output is collected where that is
    /// asked for and the chain is the last.
    pub open spec fn next_chain(self) -> ChainRunView {
        ChainRunView::begin(
            self.chains[0],
            self.current_dir,
            self.capture && self.chains.len() == 1,
        )
    }

    /// The run of the group after the next chain has been handed out.
    pub open spec fn rest(self) -> Self {
        GroupRunView { chains: self.chains.drop_first(), ..self }
    }

    /// The run of the group after a chain that was handed out has ended in
    /// the state `chain`, having written `captured` to the pipe for its
    /// output.
    ///
    /// The chain's working directory becomes the group's. A chain that
    /// fails ends the group with its error, unless its failure is kept from
    /// spreading: then the group goes on as after a success without output.
    /// After the last chain the group comes to that chain's output, or to
    /// no output where none is collected.
    pub open spec fn finished(self, chain: ChainRunView, captured: Seq<char>, pipefail: bool) -> Self {
        if self.result is Some {
            self
        } else {
            let last = self.chains.len() == 0;
            let result = match chain.result(pipefail) {
                Ok(_) => {
                    if !last {
                        None
                    } else if self.capture {
                        Some(chain_output(Ok(()), captured))
                    } else {
                        Some(Ok(Seq::empty()))
                    }
                },
                Err(e) => {
                    if !chain_ignores(chain.cmds) {
                        Some(Err(e))
                    } else if last {
                        Some(Ok(Seq::empty()))
                    } else {
                        None
                    }
                },
            };
            GroupRunView { current_dir: chain.current_dir, result, ..self }
        }
    }
}

/// A failing chain whose failure is kept from spreading, as the last chain
/// of a group, makes the group succeed with empty output, whether output is
/// collected or not.
pub proof fn lemma_ignored_failure_is_empty_success(
    group: GroupRunView,
    chain: ChainRunView,
    captured: Seq<char>,
    pipefail: bool,
)
    requires
        group.result is None,
        group.chains.len() == 0,
        chain_ignores(chain.cmds),
        chain.result(pipefail) is Err,
    ensures
        group.finished(chain, captured, pipefail).outcome() == Ok::<Seq<char>, CmdErrorView>(
            Seq::empty(),
        ),
        !group.finished(chain, captured, pipefail).running(),
{
}

/// A failing chain whose failure is kept from spreading does not stop the
/// chains after it; one whose failure spreads ends the group with its error.
pub proof fn lemma_failure_spreads_unless_ignored(
    group: GroupRunView,
    chain: ChainRunView,
    captured: Seq<char>,
    pipefail: bool,
)
    requires
        group.result is None,
        group.chains.len() > 0,
        chain.result(pipefail) is Err,
    ensures
        chain_ignores(chain.cmds) ==> group.finished(chain, captured, pipefail).running(),
        !chain_ignores(chain.cmds) ==> !group.finished(chain, captured, pipefail).running()
            && group.finished(chain, captured, pipefail).outcome() == Err::<
            Seq<char>,
            CmdErrorView,
        >(chain.result(pipefail)->Err_0),
{
}

/// The working directory in which a chain ends is the one in which the next
/// chain of the group starts, whether the chain succeeded or its failure was
/// kept from spreading.
pub proof fn lemma_directory_persists(
    group: GroupRunView,
    chain: ChainRunView,
    captured: Seq<char>,
    pipefail: bool,
)
    requires
        group.result is None,
        group.finished(chain, captured, pipefail).running(),
    ensures
        group.finished(chain, captured, pipefail).next_chain().current_dir == chain.current_dir,
        group.finished(chain, captured, pipefail).next_chain().children.len() == 0,
{
}

/// A group that is being run: the chains left, the working directory, and
/// what the group comes to once that is settled.
#[derive(Debug)]
pub struct GroupRun {
    chains: Vec<Cmds>,
    current_dir: String,
    capture: bool,
    result: Option<FunResult>,
}

impl View for GroupRun {
    type V = GroupRunView;

    closed spec fn view(&self) -> GroupRunView {
        GroupRunView {
            chains: chain_views(self.chains@),
            current_dir: self.current_dir@,
            capture: self.capture,
            result: match self.result {
                Some(r) => Some(fun_result_view(r)),
                None => None,
            },
        }
    }
}

/// What the driver is to do next for a running group.
#[derive(Debug)]
pub enum GroupStep {
    /// Run this chain to its end, then hand it to [`GroupRun::finished`] of
    /// the group's run that comes with it.
    Chain(ChainRun, GroupRun),
    /// Nothing: this is what the group comes to.
    Done(FunResult),
}

impl GroupCmds {
    /// Appends a chain.
    pub fn append(self, cmds: Cmds) -> (r: GroupCmds)
        ensures
            r@ == (GroupCmdsView { chains: self@.chains.push(cmds@), ..self@ }),
    {
        let ghost before = self@;
        let GroupCmds { mut group_cmds, current_dir } = self;
        group_cmds.push(cmds);
        let r = GroupCmds { group_cmds, current_dir };
        proof {
            assert(r@.chains =~= before.chains.push(cmds@));
        }
        r
    }

    /// The number of chains.
    pub fn len(&self) -> (r: usize)
        ensures
            r == self@.chains.len(),
    {
        self.group_cmds.len()
    }

    /// Begins a run of the group as a command: the chains run in order, and
    /// no output is collected.
    pub fn run_cmd(self) -> (r: GroupRun)
        ensures
            r@ == GroupRunView::begin(self@, false),
    {
        GroupRun {
            chains: self.group_cmds,
            current_dir: self.current_dir,
            capture: false,
            result: None,
        }
    }

    /// Begins a run of the group as a function: the chains run in order,
    /// and the output of the last one is collected. There must be a last
    /// chain.
    pub fn run_fun(self) -> (r: GroupRun)
        requires
            self@.chains.len() >= 1,
        ensures
            r@ == GroupRunView::begin(self@, true),
    {
        GroupRun {
            chains: self.group_cmds,
            current_dir: self.current_dir,
            capture: true,
            result: None,
        }
    }

    /// Begins a run of the group's one chain, to be driven and waited for by
    /// the caller.
    pub fn spawn(self, with_output: bool) -> (r: ChainRun)
        requires
            self@.chains.len() == 1,
        ensures
            r@ == ChainRunView::begin(self@.chains[0], self@.current_dir, with_output),
    {
        let GroupCmds { mut group_cmds, current_dir } = self;
        let cmds = group_cmds.remove(0);
        cmds.spawn(current_dir, with_output)
    }

    /// Begins a run of the group's one chain whose output is collected.
    pub fn spawn_with_output(self) -> (r: ChainRun)
        requires
            self@.chains.len() == 1,
        ensures
            r@ == ChainRunView::begin(self@.chains[0], self@.current_dir, true),
    {
        self.spawn(true)
    }
}

impl GroupRun {
    /// The working directory, as the chains so far have left it.
    pub fn current_dir(&self) -> (r: &str)
        ensures
            r@ == self@.current_dir,
    {
        self.current_dir.as_str()
    }

    /// Says what the driver is to do next: run the next chain, in the
    /// group's working directory, or nothing, where the group has come to
    /// its result.
    pub fn step(self) -> (r: GroupStep)
        ensures
            match r {
                GroupStep::Chain(chain, rest) => {
                    &&& self@.running()
                    &&& chain@ == self@.next_chain()
                    &&& rest@ == self@.rest()
                },
                GroupStep::Done(result) => {
                    &&& !self@.running()
                    &&& fun_result_view(result) == self@.outcome()
                },
            },
    {
        let ghost before = self@;
        let GroupRun { mut chains, current_dir, capture, result } = self;
        match result {
            Some(r) => GroupStep::Done(r),
            None => {
                if chains.len() == 0 {
                    GroupStep::Done(Ok(String::new()))
                } else {
                    let with_output = capture && chains.len() == 1;
                    let cmds = chains.remove(0);
                    let chain = cmds.spawn(current_dir.clone(), with_output);
                    let rest = GroupRun { chains, current_dir, capture, result: None };
                    proof {
                        assert(rest@.chains =~= before.chains.drop_first());
                    }
                    GroupStep::Chain(chain, rest)
                }
            },
        }
    }

    /// Takes the chain that was handed out, now at its end, and what it
    /// wrote to the pipe for its output.
    pub fn finished(self, chain: Finished, captured: &str, pipefail: bool) -> (r: GroupRun)
        ensures
            r@ == self@.finished(chain.state(), captured@, pipefail),
    {
        let GroupRun { chains, current_dir, capture, result } = self;
        if result.is_some() {
            return GroupRun { chains, current_dir, capture, result };
        }
        let last = chains.len() == 0;
        let ignore = chain.ignore_error();
        let result = if capture && last {
            match chain.wait_with_output(captured, pipefail) {
                Ok(text) => Some(Ok(text)),
                Err(e) => {
                    if !ignore {
                        Some(Err(e))
                    } else {
                        Some(Ok(String::new()))
                    }
                },
            }
        } else {
            match chain.wait(pipefail) {
                Ok(_) => {
                    if last {
                        Some(Ok(String::new()))
                    } else {
                        None
                    }
                },
                Err(e) => {
                    if !ignore {
                        Some(Err(e))
                    } else if last {
                        Some(Ok(String::new()))
                    } else {
                        None
                    }
                },
            }
        };
        GroupRun { chains, current_dir: String::from_str(chain.current_dir()), capture, result }
    }
}

} // verus!
