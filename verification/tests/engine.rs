use runb::books::Runbook;
use runb::runner::Engine;
use runb::runner::ExecutionPolicy;
use runb::runner::NextAction;
use runb::runner::Run;
use runb::runner::TaskError;
use runb::runner::TaskEvent;
use runb::runner::TaskStatus;

async fn exec_one(program: &str, script: &str) -> TaskEvent {
    let spawned = tokio::process::Command::new(program).arg("-c").arg(script).spawn();
    let mut child = match spawned {
        Ok(child) => child,
        Err(_) => return TaskEvent::SpawnFailed,
    };
    match child.wait().await {
        Ok(status) => TaskEvent::Exited(status.code().unwrap_or(-1)),
        Err(_) => TaskEvent::SpawnFailed,
    }
}

fn drive(raw: &str, policy: ExecutionPolicy) -> Run {
    let book = Runbook::parse(raw).unwrap();
    let mut run = Engine::build_run(&book, policy);
    let rt = tokio::runtime::Builder::new_current_thread().enable_all().build().unwrap();
    rt.block_on(async {
        let mut now: u64 = 1;
        loop {
            now += 1;
            match run.start_next(now) {
                NextAction::Done => break,
                NextAction::Skipped { index: _ } => continue,
                NextAction::Spawn { index: _, program, script } => {
                    let event = exec_one(&program, &script).await;
                    now += 1;
                    run.finish_running(event, now);
                },
            }
        }
    });
    run
}

#[test]
fn fail_fast_cancels_the_rest() {
    let doc = "```bash\necho hello\n```\n\n```bash\nexit 1\n```\n\n```bash\necho done\n```\n";
    let run = drive(doc, ExecutionPolicy::FailFast);
    assert_eq!(run.tasks.len(), 3);
    assert_eq!(run.tasks[0].status, TaskStatus::Complete);
    assert_eq!(run.tasks[0].exit_code, Some(0));
    assert_eq!(run.tasks[1].status, TaskStatus::Failed(TaskError::NonZeroExit(1)));
    assert_eq!(run.tasks[1].exit_code, Some(1));
    assert_eq!(run.tasks[2].status, TaskStatus::Canceled);
    assert!(!run.succeeded());
}

#[test]
fn continue_on_failure_runs_everything() {
    let doc = "```bash\necho hello\n```\n\n```bash\nexit 1\n```\n\n```bash\necho done\n```\n";
    let run = drive(doc, ExecutionPolicy::ContinueOnFailure);
    assert_eq!(run.tasks.len(), 3);
    assert_eq!(run.tasks[0].status, TaskStatus::Complete);
    assert_eq!(run.tasks[1].status, TaskStatus::Failed(TaskError::NonZeroExit(1)));
    assert_eq!(run.tasks[2].status, TaskStatus::Complete);
    assert!(run.is_finished());
    assert!(!run.succeeded());
}

#[test]
fn all_complete_run_succeeds() {
    let doc = "```bash\necho one\n```\n\n```bash\necho two\n```\n";
    let run = drive(doc, ExecutionPolicy::Sequential);
    assert_eq!(run.tasks.len(), 2);
    assert_eq!(run.tasks[0].status, TaskStatus::Complete);
    assert_eq!(run.tasks[1].status, TaskStatus::Complete);
    assert!(run.succeeded());
}

#[test]
fn missing_language_fails_without_spawning() {
    let doc = "```\nwhoami\n```\n\n```bash\necho after\n```\n";
    let book = Runbook::parse(doc).unwrap();
    let mut run = Engine::build_run(&book, ExecutionPolicy::Sequential);
    let action = run.start_next(5);
    assert!(matches!(action, NextAction::Skipped { index: 0 }));
    assert_eq!(run.tasks[0].status, TaskStatus::Failed(TaskError::NoInterpreter));
    assert_eq!(run.tasks[0].exit_code, None);
    assert_eq!(run.tasks[1].status, TaskStatus::Pending);
}

#[test]
fn missing_language_under_fail_fast_cancels_the_rest() {
    let doc = "```\nwhoami\n```\n\n```bash\necho after\n```\n";
    let book = Runbook::parse(doc).unwrap();
    let mut run = Engine::build_run(&book, ExecutionPolicy::FailFast);
    let action = run.start_next(5);
    assert!(matches!(action, NextAction::Skipped { index: 0 }));
    assert_eq!(run.tasks[0].status, TaskStatus::Failed(TaskError::NoInterpreter));
    assert_eq!(run.tasks[1].status, TaskStatus::Canceled);
    assert!(run.is_finished());
}

#[test]
fn unresolvable_interpreter_fails_the_task() {
    let doc = "```no_such_interpreter_zz\necho hi\n```\n";
    let run = drive(doc, ExecutionPolicy::Sequential);
    assert_eq!(run.tasks.len(), 1);
    assert_eq!(run.tasks[0].status, TaskStatus::Failed(TaskError::SpawnFailed));
    assert_eq!(run.tasks[0].exit_code, None);
}

#[test]
fn input_write_failure_fails_the_task() {
    let doc = "```bash\necho hi\n```\n";
    let book = Runbook::parse(doc).unwrap();
    let mut run = Engine::build_run(&book, ExecutionPolicy::Sequential);
    let action = run.start_next(3);
    assert!(matches!(action, NextAction::Spawn { index: 0, .. }));
    run.finish_running(TaskEvent::InputWriteFailed, 4);
    assert_eq!(run.tasks[0].status, TaskStatus::Failed(TaskError::InputWriteFailed));
    assert_eq!(run.tasks[0].exit_code, None);
}

#[test]
fn cancel_while_running_cancels_running_and_pending() {
    let doc = "```bash\necho one\n```\n\n```bash\necho two\n```\n\n```bash\necho three\n```\n";
    let book = Runbook::parse(doc).unwrap();
    let mut run = Engine::build_run(&book, ExecutionPolicy::Sequential);
    let action = run.start_next(10);
    assert!(matches!(action, NextAction::Spawn { index: 0, .. }));
    assert_eq!(run.tasks[0].status, TaskStatus::Running);
    run.cancel(11);
    assert_eq!(run.tasks[0].status, TaskStatus::Canceled);
    assert_eq!(run.tasks[1].status, TaskStatus::Canceled);
    assert_eq!(run.tasks[2].status, TaskStatus::Canceled);
    assert!(run.is_finished());
    assert!(!run.succeeded());
}

#[test]
fn cancel_leaves_terminal_tasks_alone() {
    let doc = "```bash\necho one\n```\n\n```bash\necho two\n```\n";
    let book = Runbook::parse(doc).unwrap();
    let mut run = Engine::build_run(&book, ExecutionPolicy::Sequential);
    let action = run.start_next(20);
    assert!(matches!(action, NextAction::Spawn { index: 0, .. }));
    run.finish_running(TaskEvent::Exited(0), 21);
    assert_eq!(run.tasks[0].status, TaskStatus::Complete);
    run.cancel(22);
    assert_eq!(run.tasks[0].status, TaskStatus::Complete);
    assert_eq!(run.tasks[0].finished_at_ms, Some(21));
    assert_eq!(run.tasks[1].status, TaskStatus::Canceled);
}

#[test]
fn spawn_hands_back_program_and_script() {
    let doc = "```python\nprint(1)\n```\n";
    let book = Runbook::parse(doc).unwrap();
    let mut run = Engine::build_run(&book, ExecutionPolicy::Sequential);
    match run.start_next(30) {
        NextAction::Spawn { index, program, script } => {
            assert_eq!(index, 0);
            assert_eq!(program, "python");
            assert_eq!(script, "print(1)");
        },
        other => panic!("expected a spawn action, got {:?}", other),
    }
    assert_eq!(run.tasks[0].status, TaskStatus::Running);
    assert_eq!(run.tasks[0].started_at_ms, Some(30));
}

#[test]
fn empty_document_finishes_at_once() {
    let book = Runbook::parse("# Nothing here\n").unwrap();
    let mut run = Engine::build_run(&book, ExecutionPolicy::Sequential);
    assert!(run.is_finished());
    assert!(run.succeeded());
    assert!(matches!(run.start_next(1), NextAction::Done));
}

#[test]
fn result_aggregates_statuses_and_duration() {
    let doc = "```bash\necho one\n```\n\n```bash\necho two\n```\n";
    let book = Runbook::parse(doc).unwrap();
    let mut run = Engine::build_run(&book, ExecutionPolicy::Sequential);
    assert!(matches!(run.start_next(100), NextAction::Spawn { index: 0, .. }));
    run.finish_running(TaskEvent::Exited(0), 130);
    assert!(matches!(run.start_next(140), NextAction::Spawn { index: 1, .. }));
    run.finish_running(TaskEvent::Exited(0), 150);
    let result = run.result();
    assert!(result.complete);
    assert_eq!(result.statuses, vec![TaskStatus::Complete, TaskStatus::Complete]);
    assert_eq!(result.total_duration_ms, 50);
}

#[test]
fn result_of_a_failed_run_is_not_complete() {
    let doc = "```bash\nexit 7\n```\n";
    let run = drive(doc, ExecutionPolicy::Sequential);
    let result = run.result();
    assert!(!result.complete);
    assert_eq!(result.statuses, vec![TaskStatus::Failed(TaskError::NonZeroExit(7))]);
}
