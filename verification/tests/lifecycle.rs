use rust_module::lifecycle::{Action, Lifecycle, Mode, Outcome, Stage};
use rust_module::lifecycle::Action::{
    CheckRunning, ComposeBuild, ComposeUp, Exit, KillCronJob, ListLogContainer, RemoveLogContainer,
    RequestGraphs, RequestProcessGraphs, RunCycle, Sleep,
};

fn run(mode: Mode, outcomes: Vec<Outcome>) -> (Vec<Action>, Lifecycle) {
    let mut m = Lifecycle::new(mode);
    let mut actions = Vec::new();
    for o in outcomes {
        actions.push(m.action());
        m.advance(o);
    }
    actions.push(m.action());
    (actions, m)
}

#[test]
fn full_life_with_log_service() {
    let outcomes = vec![
        Outcome::Succeeded(Vec::new()),
        Outcome::Succeeded(Vec::new()),
        Outcome::Succeeded(" 3f2a9c1b7d0e\n".chars().collect()),
        Outcome::Running(true),
        Outcome::Completed,
        Outcome::Completed,
        Outcome::Running(false),
        Outcome::Completed,
        Outcome::Completed,
        Outcome::Completed,
        Outcome::Completed,
        Outcome::Completed,
        Outcome::Completed,
    ];
    let (actions, m) = run(Mode::WithLogService, outcomes);
    assert_eq!(
        actions,
        vec![
            ComposeBuild, ComposeUp, ListLogContainer, CheckRunning, RunCycle, Sleep(30),
            CheckRunning, KillCronJob, RequestGraphs, Sleep(10), RequestProcessGraphs, Sleep(30),
            RemoveLogContainer, Exit
        ]
    );
    assert_eq!(m.stage, Stage::Finished);
    assert_eq!(m.log_container_id, "3f2a9c1b7d0e");
}

#[test]
fn failed_setup_monitors_without_log_id() {
    let (actions, m) = run(Mode::WithLogService, vec![Outcome::Succeeded(Vec::new()), Outcome::Failed]);
    assert_eq!(actions, vec![Action::ComposeBuild, Action::ComposeUp, Action::CheckRunning]);
    assert_eq!(m.log_container_id, "");
    let (_, m) = run(Mode::WithLogService, vec![Outcome::Failed]);
    assert_eq!(m.stage, Stage::CheckRunning);
    let (_, m) = run(
        Mode::WithLogService,
        vec![Outcome::Succeeded(Vec::new()), Outcome::Succeeded(Vec::new()), Outcome::Failed],
    );
    assert_eq!(m.stage, Stage::CheckRunning);
    assert_eq!(m.log_container_id, "");
}

#[test]
fn standalone_life() {
    let (actions, m) = run(
        Mode::Standalone,
        vec![Outcome::Running(true), Outcome::Completed, Outcome::Completed, Outcome::Running(false),
            Outcome::Completed, Outcome::Completed, Outcome::Completed],
    );
    assert_eq!(
        actions,
        vec![CheckRunning, RunCycle, Sleep(30), CheckRunning, KillCronJob, Sleep(30), Exit, Exit]
    );
    assert_eq!(m.stage, Stage::Finished);
}

#[test]
fn unanswered_check_is_asked_again() {
    let (actions, _) = run(Mode::Standalone, vec![Outcome::Completed, Outcome::Failed]);
    assert_eq!(actions, vec![Action::CheckRunning, Action::CheckRunning, Action::CheckRunning]);
}
