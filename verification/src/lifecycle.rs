//! The monitor's life: optionally bring up the log service, then run cleanup
//! cycles until asked to stop, then tidy up.  Each step is decided here from
//! the stage reached and the outcome of the previous action; the caller
//! performs the actions (commands, requests, pauses).

use vstd::prelude::*;
use crate::host::container_id_from_ps;
use crate::text::trim;

verus! {

/// Whether the monitor runs alongside a log service (which it builds and
/// starts, reports to, asks for graphs, and removes at the end) or alone.
#[derive(PartialEq, Eq, Structural, Debug, Clone, Copy)]
pub enum Mode {
    WithLogService,
    Standalone,
}

/// Where the monitor stands.
#[derive(PartialEq, Eq, Structural, Debug, Clone, Copy)]
pub enum Stage {
    BuildImages,
    StartServices,
    LocateLogContainer,
    CheckRunning,
    Cycle,
    RestAfterCycle,
    KillCronJob,
    RequestGraphs,
    RestAfterGraphs,
    RequestProcessGraphs,
    RestAfterProcessGraphs,
    RemoveLogContainer,
    RestBeforeExit,
    Finished,
}

/// What the caller is to do next.
#[derive(PartialEq, Eq, Structural, Debug, Clone, Copy)]
pub enum Action {
    /// Build the log service's images from scratch.
    ComposeBuild,
    /// Start the log service in the background.
    ComposeUp,
    /// List the log service's container, which prints its identifier.
    ListLogContainer,
    /// Report whether the monitor is still to run (no stop was requested).
    CheckRunning,
    /// Run one cleanup cycle.
    RunCycle,
    /// Pause for this many seconds.
    Sleep(u64),
    /// Kill the script that keeps spawning containers.
    KillCronJob,
    /// Ask the log service for the memory graphs.
    RequestGraphs,
    /// Ask the log service for the process graphs.
    RequestProcessGraphs,
    /// Remove the log container (whose identifier the monitor holds).
    RemoveLogContainer,
    /// Nothing more to do.
    Exit,
}

/// How the last action went.
pub enum Outcome {
    /// A command succeeded and printed this.
    Succeeded(Vec<char>),
    /// A command failed.
    Failed,
    /// The answer to `CheckRunning`.
    Running(bool),
    /// The action was carried out (it has no outcome that matters).
    Completed,
}

/// The state of the monitor.
pub struct Lifecycle {
    pub mode: Mode,
    pub stage: Stage,
    pub log_container_id: String,
}

/// The stage the monitor starts in.
pub open spec fn initial_stage(mode: Mode) -> Stage {
    match mode {
        Mode::WithLogService => Stage::BuildImages,
        Mode::Standalone => Stage::CheckRunning,
    }
}

/// The action taken at a stage.
pub open spec fn action_at(stage: Stage) -> Action {
    match stage {
        Stage::BuildImages => Action::ComposeBuild,
        Stage::StartServices => Action::ComposeUp,
        Stage::LocateLogContainer => Action::ListLogContainer,
        Stage::CheckRunning => Action::CheckRunning,
        Stage::Cycle => Action::RunCycle,
        Stage::RestAfterCycle => Action::Sleep(30),
        Stage::KillCronJob => Action::KillCronJob,
        Stage::RequestGraphs => Action::RequestGraphs,
        Stage::RestAfterGraphs => Action::Sleep(10),
        Stage::RequestProcessGraphs => Action::RequestProcessGraphs,
        Stage::RestAfterProcessGraphs => Action::Sleep(30),
        Stage::RemoveLogContainer => Action::RemoveLogContainer,
        Stage::RestBeforeExit => Action::Sleep(30),
        Stage::Finished => Action::Exit,
    }
}

/// The stage that follows `stage` when its action ended with `outcome`.  A
/// failed setup step gives up on the log service's identifier and goes on to
/// monitor; a `CheckRunning` that is not answered is asked again.
pub open spec fn next_stage(mode: Mode, stage: Stage, outcome: Outcome) -> Stage {
    match stage {
        Stage::BuildImages => if outcome is Succeeded {
            Stage::StartServices
        } else {
            Stage::CheckRunning
        },
        Stage::StartServices => if outcome is Succeeded {
            Stage::LocateLogContainer
        } else {
            Stage::CheckRunning
        },
        Stage::LocateLogContainer => Stage::CheckRunning,
        Stage::CheckRunning => match outcome {
            Outcome::Running(true) => Stage::Cycle,
            Outcome::Running(false) => Stage::KillCronJob,
            _ => Stage::CheckRunning,
        },
        Stage::Cycle => Stage::RestAfterCycle,
        Stage::RestAfterCycle => Stage::CheckRunning,
        Stage::KillCronJob => match mode {
            Mode::WithLogService => Stage::RequestGraphs,
            Mode::Standalone => Stage::RestBeforeExit,
        },
        Stage::RequestGraphs => Stage::RestAfterGraphs,
        Stage::RestAfterGraphs => Stage::RequestProcessGraphs,
        Stage::RequestProcessGraphs => Stage::RestAfterProcessGraphs,
        Stage::RestAfterProcessGraphs => Stage::RemoveLogContainer,
        Stage::RemoveLogContainer => Stage::Finished,
        Stage::RestBeforeExit => Stage::Finished,
        Stage::Finished => Stage::Finished,
    }
}

/// The log container's identifier after `stage`'s action ended with
/// `outcome`: set, from what the listing printed with the surrounding
/// whitespace removed, only when the listing succeeds; kept otherwise.
pub open spec fn next_log_id(stage: Stage, id: Seq<char>, outcome: Outcome) -> Seq<char> {
    match stage {
        Stage::LocateLogContainer => match outcome {
            Outcome::Succeeded(out) => trim(out@),
            _ => id,
        },
        _ => id,
    }
}

/// The stages reached once a stop was requested.
pub open spec fn winding_down(stage: Stage) -> bool {
    match stage {
        Stage::KillCronJob | Stage::RequestGraphs | Stage::RestAfterGraphs
        | Stage::RequestProcessGraphs | Stage::RestAfterProcessGraphs
        | Stage::RemoveLogContainer | Stage::RestBeforeExit | Stage::Finished => true,
        _ => false,
    }
}

/// The setup stages, during which the log service is brought up.
pub open spec fn in_setup(stage: Stage) -> bool {
    match stage {
        Stage::BuildImages | Stage::StartServices | Stage::LocateLogContainer => true,
        _ => false,
    }
}

impl Lifecycle {
    /// A monitor about to start, with no log container known.
    pub fn new(mode: Mode) -> (m: Lifecycle)
        ensures
            m.mode == mode,
            m.stage == initial_stage(mode),
            m.log_container_id@ == Seq::<char>::empty(),
    {
        let stage = match mode {
            Mode::WithLogService => Stage::BuildImages,
            Mode::Standalone => Stage::CheckRunning,
        };
        Lifecycle { mode, stage, log_container_id: String::new() }
    }

    /// What to do at the current stage.
    pub fn action(&self) -> (a: Action)
        ensures
            a == action_at(self.stage),
    {
        match self.stage {
            Stage::BuildImages => Action::ComposeBuild,
            Stage::StartServices => Action::ComposeUp,
            Stage::LocateLogContainer => Action::ListLogContainer,
            Stage::CheckRunning => Action::CheckRunning,
            Stage::Cycle => Action::RunCycle,
            Stage::RestAfterCycle => Action::Sleep(30),
            Stage::KillCronJob => Action::KillCronJob,
            Stage::RequestGraphs => Action::RequestGraphs,
            Stage::RestAfterGraphs => Action::Sleep(10),
            Stage::RequestProcessGraphs => Action::RequestProcessGraphs,
            Stage::RestAfterProcessGraphs => Action::Sleep(30),
            Stage::RemoveLogContainer => Action::RemoveLogContainer,
            Stage::RestBeforeExit => Action::Sleep(30),
            Stage::Finished => Action::Exit,
        }
    }

    /// Moves on after the current stage's action ended with `outcome`.
    pub fn advance(&mut self, outcome: Outcome)
        ensures
            final(self).mode == old(self).mode,
            final(self).stage == next_stage(old(self).mode, old(self).stage, outcome),
            final(self).log_container_id@ == next_log_id(
                old(self).stage,
                old(self).log_container_id@,
                outcome,
            ),
    {
        let stage = self.stage;
        let mode = self.mode;
        let next = match stage {
            Stage::BuildImages => if matches!(outcome, Outcome::Succeeded(_)) {
                Stage::StartServices
            } else {
                Stage::CheckRunning
            },
            Stage::StartServices => if matches!(outcome, Outcome::Succeeded(_)) {
                Stage::LocateLogContainer
            } else {
                Stage::CheckRunning
            },
            Stage::LocateLogContainer => Stage::CheckRunning,
            Stage::CheckRunning => match &outcome {
                Outcome::Running(true) => Stage::Cycle,
                Outcome::Running(false) => Stage::KillCronJob,
                _ => Stage::CheckRunning,
            },
            Stage::Cycle => Stage::RestAfterCycle,
            Stage::RestAfterCycle => Stage::CheckRunning,
            Stage::KillCronJob => match mode {
                Mode::WithLogService => Stage::RequestGraphs,
                Mode::Standalone => Stage::RestBeforeExit,
            },
            Stage::RequestGraphs => Stage::RestAfterGraphs,
            Stage::RestAfterGraphs => Stage::RequestProcessGraphs,
            Stage::RequestProcessGraphs => Stage::RestAfterProcessGraphs,
            Stage::RestAfterProcessGraphs => Stage::RemoveLogContainer,
            Stage::RemoveLogContainer => Stage::Finished,
            Stage::RestBeforeExit => Stage::Finished,
            Stage::Finished => Stage::Finished,
        };
        if let Stage::LocateLogContainer = stage {
            if let Outcome::Succeeded(out) = &outcome {
                self.log_container_id = container_id_from_ps(out);
            }
        }
        self.stage = next;
    }
}

/// Once a stop has been requested, the monitor never runs another cycle: a
/// winding-down stage is only ever followed by winding-down stages.
pub proof fn lemma_no_cycle_after_stop(mode: Mode, stage: Stage, outcome: Outcome)
    requires
        winding_down(stage),
    ensures
        winding_down(next_stage(mode, stage, outcome)),
        next_stage(mode, stage, outcome) != Stage::Cycle,
{
}

/// A negative answer to `CheckRunning` starts the winding down.
pub proof fn lemma_stop_starts_wind_down(mode: Mode)
    ensures
        winding_down(next_stage(mode, Stage::CheckRunning, Outcome::Running(false))),
{
}

/// Finished is final: nothing follows it and it asks for nothing but exit.
pub proof fn lemma_finished_is_final(mode: Mode, outcome: Outcome)
    ensures
        next_stage(mode, Stage::Finished, outcome) == Stage::Finished,
        action_at(Stage::Finished) == Action::Exit,
{
}

/// Outside setup the log container's identifier never changes, so the
/// container that the monitor removes at the end is the one it located.
pub proof fn lemma_log_id_fixed_after_setup(stage: Stage, id: Seq<char>, outcome: Outcome)
    requires
        !in_setup(stage),
    ensures
        next_log_id(stage, id, outcome) == id,
        !in_setup(next_stage(Mode::WithLogService, stage, outcome)),
        !in_setup(next_stage(Mode::Standalone, stage, outcome)),
{
}

/// A monitor that runs alone never builds, starts or removes the log service.
pub proof fn lemma_standalone_never_touches_log_service(stage: Stage, outcome: Outcome)
    requires
        !in_setup(stage),
        stage != Stage::RequestGraphs,
        stage != Stage::RestAfterGraphs,
        stage != Stage::RequestProcessGraphs,
        stage != Stage::RestAfterProcessGraphs,
        stage != Stage::RemoveLogContainer,
    ensures
        ({
            let s = next_stage(Mode::Standalone, stage, outcome);
            &&& !in_setup(s)
            &&& s != Stage::RequestGraphs && s != Stage::RestAfterGraphs
            &&& s != Stage::RequestProcessGraphs && s != Stage::RestAfterProcessGraphs
            &&& s != Stage::RemoveLogContainer
        }),
{
}

} // verus!
