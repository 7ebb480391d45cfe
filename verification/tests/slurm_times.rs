use futility::slurm::SlurmJob;

fn job_with_times(elapsed: &str, limit: &str) -> SlurmJob {
    SlurmJob::new(
        "1".into(),
        "n".into(),
        "p".into(),
        "a".into(),
        "R".into(),
        "st".into(),
        "su".into(),
        "e".into(),
        "re".into(),
        "/w".into(),
        limit.into(),
        elapsed.into(),
        None,
        None,
        "nl".into(),
    )
}

#[test]
fn percent_completed_is_elapsed_over_limit() {
    assert_eq!(job_with_times("00:30:00", "01:00:00").get_percent_completed(), 50);
    assert_eq!(job_with_times("01:00:00", "02:00:00").get_percent_completed(), 50);
    assert_eq!(job_with_times("00:15:00", "01:00:00").get_percent_completed(), 25);
    assert_eq!(job_with_times("00:00:00", "01:00:00").get_percent_completed(), 0);
    assert_eq!(job_with_times("00:40:00", "01:00:00").get_percent_completed(), 66);
}

#[test]
fn percent_completed_clamps_at_one_hundred() {
    assert_eq!(job_with_times("02:00:00", "01:00:00").get_percent_completed(), 100);
}

#[test]
fn unparsable_times_count_as_zero() {
    assert_eq!(job_with_times("Unknown", "01:00:00").get_percent_completed(), 0);
    assert_eq!(job_with_times("00:30:00", "garbage").get_percent_completed(), 0);
    assert_eq!(job_with_times("2-03:00:00", "01:00:00").get_percent_completed(), 0);
}

#[test]
fn cancel_and_requeue_commands_name_the_job() {
    let j = job_with_times("00:01:00", "01:00:00");
    assert_eq!(j.cancel_command(), "scancel 1");
    assert_eq!(j.requeue_command(), "scontrol requeue 1");
}
