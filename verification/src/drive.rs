//! A chain driven to its end, as a whole: what a run comes to when the
//! answers of the driver are known beforehand.
//!
//! The library hands out one step at a time and never sees a whole run.
//! Here a run is followed through in the contracts' own terms, to say what
//! the single steps add up to.

use vstd::prelude::*;
use crate::chain::{
    exit_error, first_running, lemma_all_success, lemma_pipefail_first_failure,
    lemma_without_pipefail_last_counts, next_step, ChainRunView, ChildView, NextStep, StartedView,
};
use crate::dir::DirProbeView;
use crate::error::CmdErrorView;
use crate::stage::{CmdView, Resolution};

verus! {

/// The answers of a driver: for the stage at each position, what is found
/// at the directory that it asks for, what its start comes to, and how it
/// ends.
pub struct Answers {
    pub probe: spec_fn(int) -> DirProbeView,
    pub started: spec_fn(int) -> StartedView,
    pub exited: spec_fn(int) -> Result<(), Seq<char>>,
}

/// The run after the driver has done what is asked next and has answered.
pub open spec fn answered(run: ChainRunView, answers: Answers) -> ChainRunView {
    let s = run.settled();
    match next_step(run) {
        NextStep::ChangeDir => s.probed((answers.probe)(s.children.len() as int)),
        NextStep::Launch => s.started((answers.started)(s.children.len() as int)),
        NextStep::Wait(at) => s.exited(at, (answers.exited)(at)),
        NextStep::Done => s,
    }
}

/// The run after `steps` steps have been done and answered.
pub open spec fn driven(run: ChainRunView, answers: Answers, steps: nat) -> ChainRunView
    decreases steps,
{
    if steps == 0 {
        run
    } else {
        driven(answered(run, answers), answers, (steps - 1) as nat)
    }
}

/// Every stage of `cmds` runs a builtin command or a process.
pub open spec fn all_runnable(cmds: Seq<CmdView>) -> bool {
    forall|i: int|
        0 <= i < cmds.len() ==> (#[trigger] cmds[i]).resolution() == Resolution::Builtin
            || cmds[i].resolution() == Resolution::Process
}

/// Every start succeeds, and the stage runs on.
pub open spec fn all_start(answers: Answers) -> bool {
    forall|i: int| #[trigger] (answers.started)(i) == StartedView::Running
}

/// The stages at the first `waited` positions have ended as the driver
/// says; the other stages that were started run.
pub open spec fn children_after(answers: Answers, started: int, waited: int) -> Seq<ChildView> {
    Seq::new(
        started as nat,
        |i: int|
            if i < waited {
                ChildView::Exited((answers.exited)(i))
            } else {
                ChildView::Running
            },
    )
}

/// In a list of children of which the first `waited` have ended and the
/// others run, the first that runs is the one at `waited`.
proof fn lemma_first_running(answers: Answers, started: int, waited: int, i: int)
    requires
        0 <= i <= waited <= started,
    ensures
        first_running(children_after(answers, started, waited), i) == waited,
    decreases waited - i,
{
    if i < waited {
        lemma_first_running(answers, started, waited, i + 1);
    }
}

/// While stages are started: after `k` steps the first `k` stages run, and
/// none has been waited for.
proof fn lemma_starting(
    cmds: Seq<CmdView>,
    current_dir: Seq<char>,
    with_output: bool,
    answers: Answers,
    k: nat,
)
    requires
        all_runnable(cmds),
        all_start(answers),
        k <= cmds.len(),
    ensures
        driven(ChainRunView::begin(cmds, current_dir, with_output), answers, k) == (ChainRunView {
            children: children_after(answers, k as int, 0),
            ..ChainRunView::begin(cmds, current_dir, with_output)
        }),
    decreases k,
{
    let begin = ChainRunView::begin(cmds, current_dir, with_output);
    if k == 0 {
        assert(children_after(answers, 0, 0) =~= Seq::<ChildView>::empty());
    } else {
        lemma_starting(cmds, current_dir, with_output, answers, (k - 1) as nat);
        let before = ChainRunView { children: children_after(answers, k - 1, 0), ..begin };
        lemma_driven_split(begin, answers, (k - 1) as nat, 1);
        assert(before.starting());
        assert(before.stage() == cmds[k - 1]);
        assert(before.settled() == before);
        assert((answers.started)(k - 1) == StartedView::Running);
        assert(answered(before, answers).children =~= children_after(answers, k as int, 0));
        assert(driven(before, answers, 1) == answered(before, answers)) by {
            assert(driven(answered(before, answers), answers, 0) == answered(before, answers));
        }
    }
}

/// Steps done one after the other add up.
proof fn lemma_driven_split(run: ChainRunView, answers: Answers, first: nat, then: nat)
    ensures
        driven(run, answers, first + then) == driven(driven(run, answers, first), answers, then),
    decreases first,
{
    if first > 0 {
        lemma_driven_split(answered(run, answers), answers, (first - 1) as nat, then);
    }
}

/// While stages are waited for: after `j` more steps the first `j` stages
/// have ended as the driver says.
proof fn lemma_waiting(
    cmds: Seq<CmdView>,
    current_dir: Seq<char>,
    with_output: bool,
    answers: Answers,
    j: nat,
)
    requires
        j <= cmds.len(),
    ensures
        driven(
            ChainRunView {
                children: children_after(answers, cmds.len() as int, 0),
                ..ChainRunView::begin(cmds, current_dir, with_output)
            },
            answers,
            j,
        ) == (ChainRunView {
            children: children_after(answers, cmds.len() as int, j as int),
            ..ChainRunView::begin(cmds, current_dir, with_output)
        }),
    decreases j,
{
    let n = cmds.len() as int;
    let begin = ChainRunView::begin(cmds, current_dir, with_output);
    let all_started = ChainRunView { children: children_after(answers, n, 0), ..begin };
    if j > 0 {
        lemma_waiting(cmds, current_dir, with_output, answers, (j - 1) as nat);
        let before = ChainRunView { children: children_after(answers, n, j - 1), ..begin };
        lemma_driven_split(all_started, answers, (j - 1) as nat, 1);
        assert(!before.starting());
        assert(before.settled() == before);
        lemma_first_running(answers, n, j - 1, 0);
        assert(next_step(before) == NextStep::Wait(j - 1));
        assert(answered(before, answers).children =~= children_after(answers, n, j as int));
        assert(driven(before, answers, 1) == answered(before, answers)) by {
            assert(driven(answered(before, answers), answers, 0) == answered(before, answers));
        }
    }
}

/// A chain whose stages all run a builtin command or a process, and all
/// start, is at its end after each stage has been started and each has
/// been waited for, from the left: then every stage has ended as the driver
/// says, nothing is left to do, and the working directory is as it was.
pub proof fn lemma_driven_to_the_end(
    cmds: Seq<CmdView>,
    current_dir: Seq<char>,
    with_output: bool,
    answers: Answers,
)
    requires
        all_runnable(cmds),
        all_start(answers),
    ensures
        driven(ChainRunView::begin(cmds, current_dir, with_output), answers, 2 * cmds.len())
            == (ChainRunView {
            children: Seq::new(cmds.len(), |i: int| ChildView::Exited((answers.exited)(i))),
            ..ChainRunView::begin(cmds, current_dir, with_output)
        }),
        next_step(
            driven(ChainRunView::begin(cmds, current_dir, with_output), answers, 2 * cmds.len()),
        ) == NextStep::Done,
{
    let n = cmds.len();
    let begin = ChainRunView::begin(cmds, current_dir, with_output);
    lemma_starting(cmds, current_dir, with_output, answers, n);
    lemma_waiting(cmds, current_dir, with_output, answers, n);
    lemma_driven_split(begin, answers, n, n);
    let end = driven(begin, answers, 2 * n);
    assert(children_after(answers, n as int, n as int) =~= Seq::new(
        n,
        |i: int| ChildView::Exited((answers.exited)(i)),
    ));
    assert(!end.starting());
    assert(end.settled() == end);
    lemma_first_running(answers, n as int, n as int, 0);
}

/// A chain of any number of stages that all start and all end with success
/// comes to success, with pipefail and without.
pub proof fn lemma_run_of_successes(
    cmds: Seq<CmdView>,
    current_dir: Seq<char>,
    with_output: bool,
    answers: Answers,
    pipefail: bool,
)
    requires
        all_runnable(cmds),
        all_start(answers),
        forall|i: int| 0 <= i < cmds.len() ==> #[trigger] (answers.exited)(i) == Ok::<(), Seq<char>>(()),
    ensures
        driven(
            ChainRunView::begin(cmds, current_dir, with_output),
            answers,
            2 * cmds.len(),
        ).result(pipefail) is Ok,
{
    lemma_driven_to_the_end(cmds, current_dir, with_output, answers);
    let end = driven(ChainRunView::begin(cmds, current_dir, with_output), answers, 2 * cmds.len());
    lemma_all_success(cmds, end.children, pipefail);
}

/// A chain of two stages of which the first ends with failure and the
/// second with success fails with pipefail, naming the first stage, and
/// succeeds without pipefail.
pub proof fn lemma_run_fail_then_succeed(
    cmds: Seq<CmdView>,
    current_dir: Seq<char>,
    with_output: bool,
    answers: Answers,
    why: Seq<char>,
)
    requires
        cmds.len() == 2,
        all_runnable(cmds),
        all_start(answers),
        (answers.exited)(0) == Err::<(), Seq<char>>(why),
        (answers.exited)(1) == Ok::<(), Seq<char>>(()),
    ensures
        driven(ChainRunView::begin(cmds, current_dir, with_output), answers, 4).result(true)
            == Err::<(), CmdErrorView>(exit_error(cmds, 0, why)),
        driven(ChainRunView::begin(cmds, current_dir, with_output), answers, 4).result(false) is Ok,
{
    lemma_driven_to_the_end(cmds, current_dir, with_output, answers);
    let end = driven(ChainRunView::begin(cmds, current_dir, with_output), answers, 4);
    assert(end.children[0] == ChildView::Exited(Err(why)));
    assert(end.children[1] == ChildView::Exited(Ok(())));
    lemma_pipefail_first_failure(cmds, end.children, 0, why);
    lemma_without_pipefail_last_counts(cmds, end.children);
}

} // verus!
