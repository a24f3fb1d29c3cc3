//! What the runtime decides around the engine: how it starts, which snapshot
//! it starts from, what it names the main module, and how the evaluation of
//! the main module and the event loop are driven to their end. Running the
//! engine is left to the caller.

use vstd::prelude::*;
use crate::pattern::{regex_replace_all, regex_replaced, regex_valid};
use crate::text::join_text;

verus! {

/// How an engine is brought up.
#[derive(Clone, Copy, Debug, PartialEq, Eq, Structural)]
pub struct StartupPlan {
    /// A second engine runs the startup scripts and its heap is stored as
    /// the snapshot, before the main engine is made.
    pub create_snapshot: bool,
    /// The main engine starts from a snapshot.
    pub from_snapshot: bool,
    /// The main engine runs the startup scripts itself.
    pub run_postscripts: bool,
}

/// The plan for an engine: a snapshot is made where snapshots are enabled and
/// none is at hand; the main engine starts from the one at hand or the one
/// just made; and it runs the startup scripts itself exactly where snapshots
/// are disabled.
pub open spec fn spec_plan(enable_snapshot: bool, has_snapshot: bool) -> StartupPlan {
    StartupPlan {
        create_snapshot: enable_snapshot && !has_snapshot,
        from_snapshot: enable_snapshot || has_snapshot,
        run_postscripts: !enable_snapshot,
    }
}

/// The plan for an engine, see [`spec_plan`].
pub fn plan_startup(enable_snapshot: bool, has_snapshot: bool) -> (plan: StartupPlan)
    ensures
        plan == spec_plan(enable_snapshot, has_snapshot),
{
    StartupPlan {
        create_snapshot: enable_snapshot && !has_snapshot,
        from_snapshot: enable_snapshot || has_snapshot,
        run_postscripts: !enable_snapshot,
    }
}

/// The snapshot of an engine that has run the startup scripts, kept for the
/// engines that are made later. An empty store holds none.
#[derive(Debug)]
pub struct SnapshotStore {
    pub data: Vec<u8>,
}

impl SnapshotStore {
    /// A store without a snapshot.
    pub fn new() -> (store: SnapshotStore)
        ensures
            store.data@ == Seq::<u8>::empty(),
    {
        SnapshotStore { data: Vec::new() }
    }

    /// Whether a snapshot is stored.
    pub fn snapshot_exists(&self) -> (b: bool)
        ensures
            b == (self.data@.len() > 0),
    {
        self.data.len() > 0
    }

    /// Stores `snapshot` in place of what was stored.
    pub fn create_snapshot(&mut self, snapshot: Vec<u8>)
        ensures
            final(self).data@ == snapshot@,
    {
        self.data = snapshot;
    }

    /// A copy of what is stored.
    pub fn get_snapshot(&self) -> (snapshot: Vec<u8>)
        ensures
            snapshot@ == self.data@,
    {
        let mut out: Vec<u8> = Vec::new();
        let mut i: usize = 0;
        while i < self.data.len()
            invariant
                i <= self.data.len(),
                out@ == self.data@.take(i as int),
            decreases self.data.len() - i,
        {
            out.push(self.data[i]);
            i += 1;
        }
        out
    }

    /// The snapshot that an engine is given to start from: the stored one
    /// where snapshots are enabled and one is stored, none otherwise.
    pub fn startup_snapshot(&self, enable_snapshot: bool) -> (snapshot: Option<Vec<u8>>)
        ensures
            snapshot is Some <==> enable_snapshot && self.data@.len() > 0,
            snapshot matches Some(bytes) ==> bytes@ == self.data@,
    {
        if enable_snapshot && self.snapshot_exists() {
            Some(self.get_snapshot())
        } else {
            None
        }
    }
}

/// The URL of the main module in the file `filename`.
pub open spec fn spec_main_module_url(filename: Seq<char>) -> Seq<char> {
    "file://"@ + filename
}

/// The URL of the main module in the file `filename`, which the engine then
/// resolves.
pub fn main_module_url(filename: &str) -> (url: String)
    ensures
        url@ == spec_main_module_url(filename@),
{
    join_text("file://", filename)
}

/// The regular expression for the prefix in brackets that an extension's
/// script carries in front of its path.
pub open spec fn prefix_pattern() -> Seq<char> {
    "^\\(.+\\)\\s*"@
}

/// The file that an extension's script is read from when a snapshot is
/// made: the script's name with its prefix in brackets replaced by
/// `base_dir`.
pub fn snapshot_script_path(script: &str, base_dir: &str) -> (path: Option<String>)
    ensures
        regex_valid(prefix_pattern()) ==> path is Some && path.unwrap()@ == regex_replaced(
            prefix_pattern(),
            script@,
            base_dir@,
        ),
        !regex_valid(prefix_pattern()) ==> path is None,
{
    regex_replace_all("^\\(.+\\)\\s*", script, base_dir)
}

/// Where the run of a main module stands.
#[derive(Clone, Copy, Debug, PartialEq, Eq, Structural)]
pub enum Phase {
    /// The module and what it imports are being loaded.
    Loading,
    /// The evaluation and the event loop both run.
    Racing,
    /// The evaluation has ended well; the event loop still runs.
    DrivingEventLoop,
    /// The event loop has ended well; the evaluation still runs.
    AwaitingEvaluation,
    /// The run is over.
    Finished,
}

/// What has just ended, and whether it ended well.
#[derive(Clone, Copy, Debug, PartialEq, Eq, Structural)]
pub enum Completion {
    Load(bool),
    Evaluation(bool),
    EventLoop(bool),
}

/// What an error of the run is attributed to.
#[derive(Clone, Copy, Debug, PartialEq, Eq, Structural)]
pub enum Blame {
    /// "loading the main module"
    LoadingMainModule,
    /// "running the event loop"
    RunningEventLoop,
}

/// What the caller does next.
#[derive(Clone, Copy, Debug, PartialEq, Eq, Structural)]
pub enum Action {
    /// Start the evaluation and the event loop, and wait for the first of
    /// them to end.
    Race,
    /// Run the event loop to its end.
    DriveEventLoop,
    /// Wait for the evaluation to end.
    AwaitEvaluation,
    /// Return success.
    Succeed,
    /// Return the error, attributed as given.
    Fail(Blame),
    /// The completion does not belong to this phase: go on as before.
    Ignore,
}

/// The phase after `done` has ended in the phase `phase`, and what the
/// caller does next. Whichever of the evaluation and the event loop ends
/// first, the other is driven to its end; the first error ends the run.
pub open spec fn spec_step(phase: Phase, done: Completion) -> (Phase, Action) {
    match (phase, done) {
        (Phase::Loading, Completion::Load(true)) => (Phase::Racing, Action::Race),
        (Phase::Loading, Completion::Load(false)) => (
            Phase::Finished,
            Action::Fail(Blame::LoadingMainModule),
        ),
        (Phase::Racing, Completion::Evaluation(true)) => (
            Phase::DrivingEventLoop,
            Action::DriveEventLoop,
        ),
        (Phase::Racing, Completion::EventLoop(true)) => (
            Phase::AwaitingEvaluation,
            Action::AwaitEvaluation,
        ),
        (Phase::Racing, Completion::Evaluation(false)) => (
            Phase::Finished,
            Action::Fail(Blame::RunningEventLoop),
        ),
        (Phase::Racing, Completion::EventLoop(false)) => (
            Phase::Finished,
            Action::Fail(Blame::RunningEventLoop),
        ),
        (Phase::DrivingEventLoop, Completion::EventLoop(true)) => (
            Phase::Finished,
            Action::Succeed,
        ),
        (Phase::DrivingEventLoop, Completion::EventLoop(false)) => (
            Phase::Finished,
            Action::Fail(Blame::RunningEventLoop),
        ),
        (Phase::AwaitingEvaluation, Completion::Evaluation(true)) => (
            Phase::Finished,
            Action::Succeed,
        ),
        (Phase::AwaitingEvaluation, Completion::Evaluation(false)) => (
            Phase::Finished,
            Action::Fail(Blame::RunningEventLoop),
        ),
        _ => (phase, Action::Ignore),
    }
}

/// One step of the run of a main module, see [`spec_step`].
pub fn step(phase: Phase, done: Completion) -> (next: (Phase, Action))
    ensures
        next == spec_step(phase, done),
{
    match phase {
        Phase::Loading => match done {
            Completion::Load(true) => (Phase::Racing, Action::Race),
            Completion::Load(false) => (Phase::Finished, Action::Fail(Blame::LoadingMainModule)),
            _ => (phase, Action::Ignore),
        },
        Phase::Racing => match done {
            Completion::Evaluation(true) => (Phase::DrivingEventLoop, Action::DriveEventLoop),
            Completion::EventLoop(true) => (Phase::AwaitingEvaluation, Action::AwaitEvaluation),
            Completion::Evaluation(false) => (
                Phase::Finished,
                Action::Fail(Blame::RunningEventLoop),
            ),
            Completion::EventLoop(false) => (
                Phase::Finished,
                Action::Fail(Blame::RunningEventLoop),
            ),
            _ => (phase, Action::Ignore),
        },
        Phase::DrivingEventLoop => match done {
            Completion::EventLoop(true) => (Phase::Finished, Action::Succeed),
            Completion::EventLoop(false) => (
                Phase::Finished,
                Action::Fail(Blame::RunningEventLoop),
            ),
            _ => (phase, Action::Ignore),
        },
        Phase::AwaitingEvaluation => match done {
            Completion::Evaluation(true) => (Phase::Finished, Action::Succeed),
            Completion::Evaluation(false) => (
                Phase::Finished,
                Action::Fail(Blame::RunningEventLoop),
            ),
            _ => (phase, Action::Ignore),
        },
        Phase::Finished => (phase, Action::Ignore),
    }
}

/// The run succeeds only from a phase in which one of the evaluation and the
/// event loop has ended well, and only when the other ends well too.
pub proof fn lemma_success_needs_both(phase: Phase, done: Completion)
    requires
        spec_step(phase, done).1 == Action::Succeed,
    ensures
        phase == Phase::DrivingEventLoop && done == Completion::EventLoop(true) || phase
            == Phase::AwaitingEvaluation && done == Completion::Evaluation(true),
{
}

} // verus!
