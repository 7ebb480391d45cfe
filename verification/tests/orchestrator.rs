use futility::app::{App, AppMessage, JobControlMessage, KeyInput, MouseKind};
use futility::file_watcher::FileWatcherError;
use futility::slurm::SlurmJob;

fn job(id: &str, state: &str, work_dir: &str, stdout: Option<&str>) -> SlurmJob {
    SlurmJob::new(
        id.into(),
        format!("name-{}", id),
        "part".into(),
        "acct".into(),
        state.into(),
        "start".into(),
        "submit".into(),
        "end".into(),
        "reason".into(),
        work_dir.into(),
        "01:00:00".into(),
        "00:10:00".into(),
        stdout.map(|s| s.to_string()),
        None,
        "node".into(),
    )
}

#[test]
fn selection_clamps_when_registry_shrinks() {
    let mut app = App::new(false);
    let three = vec![
        job("100", "R", "/w", None),
        job("101", "R", "/w", None),
        job("102", "R", "/w", None),
    ];
    app.handle(AppMessage::JobList(Some(three)));
    app.handle(AppMessage::Key(KeyInput::Down));
    app.handle(AppMessage::Key(KeyInput::Down));
    assert_eq!(app.selected_index, 2);
    assert_eq!(app.slurm_jobs.items[app.selected_index].job_id, "102");

    let two = vec![job("100", "R", "/w", None), job("101", "R", "/w", None)];
    let eff = app.handle(AppMessage::JobList(Some(two)));
    // The cursor clamps onto the last remaining job ...
    assert_eq!(app.selected_index, 1);
    assert_eq!(app.slurm_jobs.items[app.selected_index].job_id, "101");
    assert_eq!(app.slurm_jobs.state, Some(1));
    // ... and the tail target is re-derived for that job.
    assert_eq!(eff.watch, Some(Some("/w/slurm-101.out".to_string())));
}

#[test]
fn selection_is_unset_when_registry_empties() {
    let mut app = App::new(false);
    app.handle(AppMessage::JobList(Some(vec![job("1", "R", "/w", None)])));
    assert_eq!(app.slurm_jobs.state, Some(0));
    app.handle(AppMessage::JobList(Some(Vec::new())));
    assert_eq!(app.slurm_jobs.state, None);
    assert_eq!(app.selected_index, 0);
}

#[test]
fn running_only_filter_keeps_running_and_pending_in_order() {
    let mut app = App::new(true);
    let raw = vec![
        job("1", "R", "/w", None),
        job("2", "PD", "/w", None),
        job("3", "CD", "/w", None),
        job("4", "F", "/w", None),
    ];
    app.handle(AppMessage::JobList(Some(raw)));
    let visible: Vec<(&str, &str)> = app
        .slurm_jobs
        .items
        .iter()
        .map(|j| (j.job_id.as_str(), j.state.as_str()))
        .collect();
    assert_eq!(visible, vec![("1", "R"), ("2", "PD")]);
}

#[test]
fn filter_toggle_rebuilds_table() {
    let mut app = App::new(false);
    let raw = vec![job("1", "R", "/w", None), job("2", "CD", "/w", None)];
    app.handle(AppMessage::JobList(Some(raw)));
    assert_eq!(app.slurm_jobs.items.len(), 2);
    app.handle(AppMessage::Key(KeyInput::Filter));
    assert_eq!(app.slurm_jobs.items.len(), 1);
    assert_eq!(app.slurm_jobs.items[0].state, "R");
    app.handle(AppMessage::Key(KeyInput::Filter));
    assert_eq!(app.slurm_jobs.items.len(), 2);
}

#[test]
fn cancel_dispatches_and_blocks_second_request() {
    let mut app = App::new(false);
    app.handle(AppMessage::JobList(Some(vec![job("42", "R", "/w", None)])));
    let eff = app.handle(AppMessage::Key(KeyInput::Cancel));
    assert!(app.cancelling);
    match eff.control {
        Some(JobControlMessage::CancelJob(id)) => assert_eq!(id, "42"),
        _ => panic!("expected a cancel request"),
    }
    // A second control request while the first is pending is rejected.
    let eff2 = app.handle(AppMessage::Key(KeyInput::Requeue));
    assert!(eff2.control.is_none());
    assert!(!app.requeueing);
    let eff3 = app.handle(AppMessage::Key(KeyInput::Cancel));
    assert!(eff3.control.is_none());
    // Navigation stays live while the action is pending.
    app.handle(AppMessage::JobList(Some(vec![
        job("42", "R", "/w", None),
        job("43", "R", "/w", None),
    ])));
    app.handle(AppMessage::Key(KeyInput::Down));
    assert_eq!(app.selected_index, 1);
    // Completion clears the flag, and a new request goes through.
    app.handle(AppMessage::JobCancelled(Ok(())));
    assert!(!app.cancelling);
    let eff4 = app.handle(AppMessage::Key(KeyInput::Requeue));
    assert!(app.requeueing);
    match eff4.control {
        Some(JobControlMessage::RequeueJob(j)) => assert_eq!(j.job_id, "43"),
        _ => panic!("expected a requeue request"),
    }
}

#[test]
fn requeue_failure_also_clears_pending() {
    let mut app = App::new(false);
    app.handle(AppMessage::JobList(Some(vec![job("7", "R", "/w", None)])));
    app.handle(AppMessage::Key(KeyInput::Requeue));
    assert!(app.requeueing);
    app.handle(AppMessage::JobRequeued(Err("requeue failed".to_string())));
    assert!(!app.requeueing);
}

#[test]
fn control_keys_need_a_selected_job() {
    let mut app = App::new(false);
    let eff = app.handle(AppMessage::Key(KeyInput::Cancel));
    assert!(eff.control.is_none());
    assert!(!app.cancelling);
}

#[test]
fn tail_target_prefers_resolved_stdout() {
    let mut app = App::new(false);
    let eff = app.handle(AppMessage::JobList(Some(vec![job(
        "5",
        "R",
        "/data/run",
        Some("/data/run/custom.log"),
    )])));
    assert_eq!(eff.watch, Some(Some("/data/run/custom.log".to_string())));
}

#[test]
fn unchanged_tail_target_is_not_resent() {
    let mut app = App::new(false);
    let eff1 = app.handle(AppMessage::JobList(Some(vec![job("5", "R", "/w", None)])));
    assert_eq!(eff1.watch, Some(Some("/w/slurm-5.out".to_string())));
    // The same registry again derives the same path: no new subscription.
    let eff2 = app.handle(AppMessage::JobList(Some(vec![job("5", "R", "/w", None)])));
    assert!(eff2.watch.is_none());
}

#[test]
fn navigation_clamps_at_both_ends() {
    let mut app = App::new(false);
    app.handle(AppMessage::JobList(Some(vec![
        job("1", "R", "/w", None),
        job("2", "R", "/w", None),
        job("3", "R", "/w", None),
    ])));
    app.handle(AppMessage::Key(KeyInput::Up));
    assert_eq!(app.selected_index, 0);
    app.handle(AppMessage::Key(KeyInput::PageDown));
    assert_eq!(app.selected_index, 2);
    app.handle(AppMessage::Key(KeyInput::Down));
    assert_eq!(app.selected_index, 2);
    app.handle(AppMessage::Key(KeyInput::PageUp));
    assert_eq!(app.selected_index, 0);
    app.handle(AppMessage::Key(KeyInput::Bottom));
    assert_eq!(app.selected_index, 2);
    app.handle(AppMessage::Key(KeyInput::Top));
    assert_eq!(app.selected_index, 0);
}

#[test]
fn mouse_scroll_moves_selection() {
    let mut app = App::new(false);
    app.handle(AppMessage::JobList(Some(vec![
        job("1", "R", "/w", None),
        job("2", "R", "/w", None),
    ])));
    app.handle(AppMessage::Mouse(MouseKind::ScrollDown));
    assert_eq!(app.selected_index, 1);
    app.handle(AppMessage::Mouse(MouseKind::ScrollUp));
    assert_eq!(app.selected_index, 0);
}

#[test]
fn output_pane_scrolls_under_focus_switch() {
    let mut app = App::new(false);
    app.handle(AppMessage::JobList(Some(vec![job("1", "R", "/w", None)])));
    app.handle(AppMessage::OutputFile(Ok("l0\nl1\nl2\n".to_string())));
    let lines: Vec<&str> = app.job_output.items.iter().map(|s| s.as_str()).collect();
    assert_eq!(lines, vec!["l0", "l1", "l2"]);
    app.handle(AppMessage::Key(KeyInput::SwitchFocus));
    app.handle(AppMessage::Key(KeyInput::Down));
    app.handle(AppMessage::Key(KeyInput::Down));
    assert_eq!(app.output_line_index, 2);
    // Job selection did not move while the output pane was focused.
    assert_eq!(app.selected_index, 0);
}

#[test]
fn output_scroll_clamps_when_content_shrinks() {
    let mut app = App::new(false);
    app.handle(AppMessage::OutputFile(Ok("a\nb\nc\nd\n".to_string())));
    app.handle(AppMessage::Key(KeyInput::SwitchFocus));
    app.handle(AppMessage::Key(KeyInput::Bottom));
    assert_eq!(app.output_line_index, 3);
    app.handle(AppMessage::OutputFile(Ok("a\nb\n".to_string())));
    assert_eq!(app.output_line_index, 1);
    app.handle(AppMessage::OutputFile(Ok("".to_string())));
    assert_eq!(app.output_line_index, 0);
    assert_eq!(app.job_output.state, None);
}

#[test]
fn tail_error_is_shown_inline() {
    let mut app = App::new(false);
    app.handle(AppMessage::OutputFile(Err(FileWatcherError::File(
        "No such file".to_string(),
    ))));
    assert_eq!(app.job_output.items.len(), 1);
    assert_eq!(app.job_output.items[0], "File error: No such file");
    app.handle(AppMessage::OutputFile(Err(FileWatcherError::Watcher(
        "watch failed".to_string(),
    ))));
    assert_eq!(app.job_output.items[0], "Watcher error: watch failed");
}

#[test]
fn empty_poll_leaves_registry_alone() {
    let mut app = App::new(false);
    app.handle(AppMessage::JobList(Some(vec![job("9", "R", "/w", None)])));
    app.handle(AppMessage::JobList(None));
    assert_eq!(app.slurm_jobs.items.len(), 1);
    assert_eq!(app.slurm_jobs.items[0].job_id, "9");
}
