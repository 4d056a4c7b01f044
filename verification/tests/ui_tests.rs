use http_storm::ui::{InputCommand, InputStep, Redraw, View, ViewStatus};
use http_storm::worker::WorkerCommand;
use std::io::{Error, ErrorKind};

#[test]
fn keys_q_and_s_in_either_case() {
    assert_eq!(InputCommand::from_input(Ok(b'q')), InputCommand::Quit);
    assert_eq!(InputCommand::from_input(Ok(b'Q')), InputCommand::Quit);
    assert_eq!(InputCommand::from_input(Ok(b's')), InputCommand::Stop);
    assert_eq!(InputCommand::from_input(Ok(b'S')), InputCommand::Stop);
}

#[test]
fn other_keys_and_failed_reads_ask_for_nothing() {
    assert_eq!(InputCommand::from_input(Ok(b'x')), InputCommand::Nothing);
    assert_eq!(InputCommand::from_input(Ok(0)), InputCommand::Nothing);
    let failed = Err(Error::new(ErrorKind::Other, "closed"));
    assert_eq!(InputCommand::from_input(failed), InputCommand::Nothing);
}

#[test]
fn run_finishes_when_every_worker_has() {
    let mut view = View::new();
    view.receive(false);
    view.receive(true);
    view.drained(2);
    assert_eq!(view.current_status, ViewStatus::Running);
    view.receive(true);
    assert_eq!(view.finished_workers, 2);
    view.drained(2);
    assert_eq!(view.current_status, ViewStatus::Finished);
}

#[test]
fn stop_key_finishes_the_run_once() {
    let mut view = View::new();
    assert_eq!(view.plan(500, 82), Redraw::Window(80));
    assert_eq!(view.input(InputCommand::Nothing), InputStep::Next);
    assert_eq!(view.current_status, ViewStatus::Running);
    assert_eq!(view.input(InputCommand::Stop), InputStep::Halt);
    assert_eq!(view.current_status, ViewStatus::Finished);
    assert_eq!(view.plan(500, 82), Redraw::Conclude(WorkerCommand::Stop, 500));
    view.shown();
    assert_eq!(view.previous_status, ViewStatus::Finished);
    assert_eq!(view.plan(500, 82), Redraw::Keep);
}

#[test]
fn quit_key_leaves_the_status_alone() {
    let mut view = View::new();
    assert_eq!(view.input(InputCommand::Quit), InputStep::Quit);
    assert_eq!(view.current_status, ViewStatus::Running);
    assert_eq!(view.plan(3, 2), Redraw::Window(0));
}
