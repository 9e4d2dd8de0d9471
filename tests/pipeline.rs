use xero_toolkit::executor::{CommandRun, Effect};
use xero_toolkit::session::{ActionSlot, StartError};
use xero_toolkit::types::{CommandResult, CommandStep, TaskStatus};

fn finishes(effects: &[Effect]) -> Vec<(bool, String)> {
    effects
        .iter()
        .filter_map(|e| match e {
            Effect::Finish { success, message } => Some((*success, message.clone())),
            _ => None,
        })
        .collect()
}

fn spawns(effects: &[Effect]) -> Vec<(String, Vec<String>)> {
    effects
        .iter()
        .filter_map(|e| match e {
            Effect::Spawn { program, args } => Some((program.clone(), args.clone())),
            _ => None,
        })
        .collect()
}

fn statuses(effects: &[Effect]) -> Vec<(usize, TaskStatus)> {
    effects
        .iter()
        .filter_map(|e| match e {
            Effect::Status { index, status } => Some((*index, *status)),
            _ => None,
        })
        .collect()
}

fn log(effects: &[Effect]) -> String {
    effects
        .iter()
        .filter_map(|e| match e {
            Effect::Log { text, .. } => Some(text.clone()),
            _ => None,
        })
        .collect()
}

fn has_force_terminate(effects: &[Effect]) -> bool {
    effects.iter().any(|e| matches!(e, Effect::ForceTerminate))
}

/// Runs step `index` to its exit with `result`, with one line of output.
fn run_step(run: &mut CommandRun, all: &mut Vec<Effect>, index: usize, out: &str, result: CommandResult) {
    all.extend(run.execute_commands_sequence(None, Some("paru")));
    all.extend(run.process_spawned());
    all.extend(run.append_output(index, out, false));
    all.extend(run.mark_stream_done(index, false));
    all.extend(run.mark_stream_done(index, true));
    all.extend(run.set_exit_result(index, result));
}

#[test]
fn echo_then_privileged_restart_both_succeed() {
    let mut run = CommandRun::new(vec![
        CommandStep::normal("echo", &["hi"], "Echo"),
        CommandStep::privileged("systemctl", &["restart", "foo"], "Restart foo"),
    ]);
    let mut all = Vec::new();
    run_step(&mut run, &mut all, 0, "hi", CommandResult::Success);
    run_step(&mut run, &mut all, 1, "", CommandResult::Success);
    all.extend(run.execute_commands_sequence(None, None));
    let last_progress = all
        .iter()
        .filter_map(|e| match e {
            Effect::Progress { current, total } => Some((*current, *total)),
            _ => None,
        })
        .last();
    assert_eq!(last_progress, Some((2, 2)));
    assert_eq!(
        finishes(&all),
        vec![(true, "All operations completed successfully!".to_string())]
    );
    assert_eq!(
        spawns(&all),
        vec![
            ("echo".to_string(), vec!["hi".to_string()]),
            (
                "pkexec".to_string(),
                vec!["systemctl".to_string(), "restart".to_string(), "foo".to_string()]
            ),
        ]
    );
    let text = log(&all);
    assert!(text.contains("hi\n"));
    let step2 = text.find("=== Step 2/2: Restart foo ===").unwrap();
    assert!(text[step2..].contains("\u{2713} Step completed successfully\n"));
    assert_eq!(run.outcome(), Some(true));
}

#[test]
fn always_failing_command_fails_the_run() {
    let mut run = CommandRun::new(vec![CommandStep::normal("false", &[], "Fail")]);
    let mut all = Vec::new();
    run_step(&mut run, &mut all, 0, "", CommandResult::Failure { exit_code: Some(1) });
    assert_eq!(run.status(0), TaskStatus::Failed);
    assert_eq!(
        finishes(&all),
        vec![(false, "Operation failed at step 1 of 1".to_string())]
    );
    assert!(log(&all).contains("\u{2717} Command failed with exit code: 1\n"));
    assert_eq!(run.outcome(), Some(false));
}

#[test]
fn all_steps_succeed_report_once_with_statuses_in_order() {
    let steps = vec![
        CommandStep::normal("a", &[], "A"),
        CommandStep::privileged("b", &[], "B"),
        CommandStep::aur(&["-S", "c"], "C"),
    ];
    let mut run = CommandRun::new(steps);
    let mut all = Vec::new();
    for i in 0..3 {
        assert_eq!(run.status(i), TaskStatus::Pending);
        run_step(&mut run, &mut all, i, "x", CommandResult::Success);
    }
    all.extend(run.execute_commands_sequence(None, None));
    all.extend(run.execute_commands_sequence(None, None));
    assert_eq!(finishes(&all).len(), 1);
    assert!(finishes(&all)[0].0);
    assert_eq!(
        statuses(&all),
        vec![
            (0, TaskStatus::Running),
            (0, TaskStatus::Success),
            (1, TaskStatus::Running),
            (1, TaskStatus::Success),
            (2, TaskStatus::Running),
            (2, TaskStatus::Success),
        ]
    );
}

#[test]
fn failing_middle_step_stops_the_run() {
    let mut run = CommandRun::new(vec![
        CommandStep::normal("a", &[], "A"),
        CommandStep::normal("b", &[], "B"),
        CommandStep::normal("c", &[], "C"),
    ]);
    let mut all = Vec::new();
    run_step(&mut run, &mut all, 0, "", CommandResult::Success);
    run_step(&mut run, &mut all, 1, "", CommandResult::Failure { exit_code: None });
    all.extend(run.execute_commands_sequence(None, None));
    all.extend(run.process_spawned());
    assert_eq!(run.status(0), TaskStatus::Success);
    assert_eq!(run.status(1), TaskStatus::Failed);
    assert_eq!(run.status(2), TaskStatus::Pending);
    assert_eq!(spawns(&all).len(), 2);
    assert_eq!(
        finishes(&all),
        vec![(false, "Operation failed at step 2 of 3".to_string())]
    );
    assert!(!log(&all).contains("exit code"));
}

#[test]
fn late_signals_after_a_step_closed_change_nothing() {
    let mut run = CommandRun::new(vec![
        CommandStep::normal("a", &[], "A"),
        CommandStep::normal("b", &[], "B"),
    ]);
    let mut all = Vec::new();
    run_step(&mut run, &mut all, 0, "", CommandResult::Success);
    assert_eq!(run.current_index(), 1);
    assert!(run.mark_stream_done(0, false).is_empty());
    assert!(run.set_exit_result(0, CommandResult::Success).is_empty());
    assert!(run.set_exit_result(0, CommandResult::Failure { exit_code: Some(2) }).is_empty());
    assert_eq!(run.current_index(), 1);
    run_step(&mut run, &mut all, 1, "", CommandResult::Success);
    all.extend(run.execute_commands_sequence(None, None));
    assert!(run.set_exit_result(1, CommandResult::Success).is_empty());
    assert!(run.mark_stream_done(1, true).is_empty());
    assert!(run.execute_commands_sequence(None, None).is_empty());
    assert!(run.cancel().is_empty());
    assert_eq!(finishes(&all).len(), 1);
}

#[test]
fn exit_before_streams_closes_on_last_stream() {
    let mut run = CommandRun::new(vec![CommandStep::normal("a", &[], "A")]);
    run.execute_commands_sequence(None, None);
    run.process_spawned();
    assert!(run.set_exit_result(0, CommandResult::Success).is_empty());
    assert!(run.mark_stream_done(0, true).is_empty());
    let closing = run.mark_stream_done(0, false);
    assert_eq!(statuses(&closing), vec![(0, TaskStatus::Success)]);
    assert_eq!(run.current_index(), 1);
}

#[test]
fn cancel_before_start_runs_nothing() {
    let mut run = CommandRun::new(vec![CommandStep::normal("a", &[], "A")]);
    let mut all = run.cancel();
    assert!(run.is_cancelled());
    all.extend(run.execute_commands_sequence(None, None));
    all.extend(run.execute_commands_sequence(None, None));
    assert!(spawns(&all).is_empty());
    assert!(!has_force_terminate(&all));
    assert_eq!(finishes(&all), vec![(false, "Operation cancelled".to_string())]);
    assert_eq!(run.status(0), TaskStatus::Pending);
    assert!(log(&all).contains("[Cancelled by user]"));
}

#[test]
fn cancel_while_running_terminates_and_stops() {
    let mut run = CommandRun::new(vec![
        CommandStep::normal("sleep", &["100"], "Sleep"),
        CommandStep::normal("b", &[], "B"),
    ]);
    let mut all = run.execute_commands_sequence(None, None);
    all.extend(run.process_spawned());
    let cancel = run.cancel();
    assert!(has_force_terminate(&cancel));
    assert!(cancel.iter().any(|e| matches!(e, Effect::DisableCancel)));
    all.extend(cancel);
    all.extend(run.mark_stream_done(0, false));
    all.extend(run.mark_stream_done(0, true));
    all.extend(run.set_exit_result(0, CommandResult::Success));
    all.extend(run.execute_commands_sequence(None, None));
    assert_eq!(spawns(&all).len(), 1);
    assert_eq!(finishes(&all), vec![(false, "Operation cancelled".to_string())]);
    assert_eq!(run.status(1), TaskStatus::Pending);
    assert_eq!(run.current_index(), 0);
}

#[test]
fn cancel_while_launching_terminates_once_spawned() {
    let mut run = CommandRun::new(vec![CommandStep::normal("a", &[], "A")]);
    run.execute_commands_sequence(None, None);
    let cancel = run.cancel();
    assert!(!has_force_terminate(&cancel));
    assert!(has_force_terminate(&run.process_spawned()));
}

#[test]
fn aur_step_without_helper_spawns_nothing() {
    let mut run = CommandRun::new(vec![CommandStep::aur(&["-S", "x"], "X")]);
    let effects = run.execute_commands_sequence(None, None);
    assert!(spawns(&effects).is_empty());
    assert_eq!(finishes(&effects), vec![(false, "Failed to prepare command".to_string())]);
    assert!(log(&effects).contains("\u{2717} AUR helper not initialized (paru or yay required).\n"));
    assert_eq!(run.status(0), TaskStatus::Failed);
}

#[test]
fn spawn_wait_and_read_errors_are_logged_and_end_the_run() {
    let mut run = CommandRun::new(vec![CommandStep::normal("nope", &[], "Nope")]);
    run.execute_commands_sequence(None, None);
    let e = run.spawn_failed("not found");
    assert!(log(&e).contains("\u{2717} Failed to start command: not found\n"));
    assert_eq!(finishes(&e), vec![(false, "Failed to start operation".to_string())]);

    let mut run = CommandRun::new(vec![CommandStep::normal("a", &[], "A")]);
    run.execute_commands_sequence(None, None);
    run.process_spawned();
    let r = run.read_failed(0, "broken pipe", false);
    assert!(log(&r).contains("\u{2717} Failed to read command output: broken pipe\n"));
    run.mark_stream_done(0, true);
    let w = run.wait_failed(0, "gone");
    assert!(log(&w).contains("\u{2717} Failed to wait for command: gone\n"));
    assert_eq!(finishes(&w), vec![(false, "Operation failed at step 1 of 1".to_string())]);
}

#[test]
fn empty_run_succeeds_at_once() {
    let mut run = CommandRun::new(Vec::new());
    assert_eq!(run.total_commands(), 0);
    let e = run.execute_commands_sequence(None, None);
    assert_eq!(finishes(&e), vec![(true, "All operations completed successfully!".to_string())]);
}

#[test]
fn slot_lets_one_run_at_a_time() {
    let mut slot = ActionSlot::new();
    assert!(!slot.is_action_running());
    assert_eq!(slot.try_start(0), Err(StartError::NoCommands));
    assert!(!slot.is_action_running());
    assert_eq!(slot.try_start(2), Ok(()));
    assert!(slot.is_action_running());
    assert_eq!(slot.try_start(2), Err(StartError::AlreadyRunning));
    slot.finish();
    assert_eq!(slot.try_start(1), Ok(()));
}
