use futility::job_watcher::{
    map_state, parse_history, parse_history_line, parse_live_line, refresh_job_list, LiveJob,
};
use futility::slurm::SlurmJob;

fn history_line(job_id: &str, name: &str, state: &str) -> String {
    format!(
        "{}|{}|gpu|acct|2024-01-01T10:00:00|Unknown|Unknown|{}|/work/dir|None|01:00:00|00:30:00|node1",
        job_id, name, state
    )
}

fn history_text(lines: &[String]) -> String {
    let mut t = String::from("JobID|JobName|Partition|Account|Submit|Start|End|State|WorkDir|Reason|TimeLimit|Elapsed|NodeList\n");
    for l in lines {
        t.push_str(l);
        t.push('\n');
    }
    t
}

fn live_record(job_id: &str, stdout: &str, stderr: &str) -> LiveJob {
    let line = format!(
        "{}##jobname##gpu##acct##2024-01-01T10:00:00##2024-01-01T11:00:00##N/A##RUNNING##/work/dir##None##01:00:00##00:30:00##{}##{}##node1##4500##7",
        job_id, stdout, stderr
    );
    parse_live_line(&line).expect("live line parses")
}

#[test]
fn state_codes_are_mapped() {
    assert_eq!(map_state("PENDING"), "PD");
    assert_eq!(map_state("RUNNING"), "R");
    assert_eq!(map_state("COMPLETED"), "CD");
    assert_eq!(map_state("FAILED"), "F");
    assert_eq!(map_state("CANCELLED"), "CA");
    assert_eq!(map_state("TIMEOUT"), "TO");
    assert_eq!(map_state("PREEMPTED"), "PR");
    assert_eq!(map_state("NODE_FAIL"), "NF");
    assert_eq!(map_state("REVOKED"), "RV");
    assert_eq!(map_state("SUSPENDED"), "S");
    assert_eq!(map_state("WEIRD_STATE"), "WEIRD_STATE");
}

#[test]
fn history_line_parses_all_fields() {
    let line = "77|train|gpu|acct|2024-01-01T10:00:00|2024-01-01T10:05:00|2024-01-01T12:00:00|COMPLETED|/scratch/me|None|02:00:00|01:55:00|node3";
    let j = parse_history_line(line).expect("line parses");
    assert_eq!(j.job_id, "77");
    assert_eq!(j.job_name, "train");
    assert_eq!(j.partition, "gpu");
    assert_eq!(j.account, "acct");
    assert_eq!(j.state, "CD");
    assert_eq!(j.submit, "2024-01-01T10:00:00");
    assert_eq!(j.start, "2024-01-01T10:05:00");
    assert_eq!(j.end, "2024-01-01T12:00:00");
    assert_eq!(j.work_dir, "/scratch/me");
    assert_eq!(j.reason, "None");
    assert_eq!(j.time_limit, "02:00:00");
    assert_eq!(j.elapsed_time, "01:55:00");
    assert_eq!(j.node_list, "node3");
    assert_eq!(j.stdout, None);
    assert_eq!(j.stderr, None);
}

#[test]
fn state_annotation_is_trimmed() {
    let line = history_line("9", "j", "CANCELLED by 1000");
    let j = parse_history_line(&line).expect("line parses");
    assert_eq!(j.state, "CA");
}

#[test]
fn short_history_line_is_skipped() {
    assert!(parse_history_line("only|three|fields").is_none());
}

#[test]
fn pseudo_records_are_excluded() {
    let lines = vec![
        history_line("100", "realjob", "RUNNING"),
        history_line("100.batch", "batch", "RUNNING"),
        history_line("100.extern", "extern", "RUNNING"),
        history_line("101.0", "step", "RUNNING"),
        history_line("102", "_interactive", "RUNNING"),
        history_line("103", "otherjob", "PENDING"),
    ];
    let jobs = parse_history(&history_text(&lines));
    let ids: Vec<&str> = jobs.iter().map(|j| j.job_id.as_str()).collect();
    assert_eq!(ids, vec!["100", "103"]);
}

#[test]
fn duplicate_history_ids_keep_first() {
    let lines = vec![
        history_line("50", "first", "RUNNING"),
        history_line("50", "second", "FAILED"),
    ];
    let jobs = parse_history(&history_text(&lines));
    assert_eq!(jobs.len(), 1);
    assert_eq!(jobs[0].job_name, "first");
}

#[test]
fn live_line_parses_and_synthesizes_array_key() {
    let rec = live_record("4500_7", "/tmp/out.log", "/tmp/err.log");
    assert_eq!(rec.job_id, "4500_7");
    assert_eq!(rec.state, "R");
    assert_eq!(rec.stdout, "/tmp/out.log");
    assert_eq!(rec.stderr, "/tmp/err.log");
    assert_eq!(rec.array_key, "4500_7");
    assert!(!rec.stdout_exists);
    assert!(!rec.stderr_exists);
}

#[test]
fn short_live_line_is_skipped() {
    assert!(parse_live_line("a##b##c").is_none());
}

#[test]
fn merge_patches_output_paths_only_when_present_on_disk() {
    let lines = vec![history_line("200", "shared", "PENDING")];
    let mut rec = live_record("200", "/tmp/stdout.log", "/tmp/stderr.log");
    rec.stdout_exists = true;
    rec.stderr_exists = false;
    let merged = refresh_job_list(&history_text(&lines), vec![rec]).expect("non-empty");
    assert_eq!(merged.len(), 1);
    let j = &merged[0];
    // B's stdout was seen on disk, B's stderr was not.
    assert_eq!(j.stdout.as_deref(), Some("/tmp/stdout.log"));
    assert_eq!(j.stderr, None);
    // Fields absent from B keep A's values.
    assert_eq!(j.job_name, "shared");
    assert_eq!(j.state, "PD");
    // A's unknown start time is backfilled from B.
    assert_eq!(j.start, "2024-01-01T11:00:00");
}

#[test]
fn merge_keeps_known_start_time() {
    let line = "300|job|gpu|acct|2024-01-01T09:00:00|2024-01-01T09:30:00|Unknown|RUNNING|/w|None|01:00:00|00:10:00|n1";
    let text = history_text(&[line.to_string()]);
    let rec = live_record("300", "/tmp/o", "/tmp/e");
    let merged = refresh_job_list(&text, vec![rec]).expect("non-empty");
    assert_eq!(merged[0].start, "2024-01-01T09:30:00");
}

#[test]
fn merge_matches_by_array_key() {
    let lines = vec![history_line("4500_7", "arrayjob", "PENDING")];
    // The live job id differs, but arrayjobid_arraytaskid matches.
    let line = "4501##x##p##a##s##2024-01-01T11:00:00##e##RUNNING##/w##r##t##u##/tmp/o##/tmp/e##n##4500##7";
    let mut rec = parse_live_line(line).expect("parses");
    rec.stdout_exists = true;
    let merged = refresh_job_list(&history_text(&lines), vec![rec]).expect("non-empty");
    assert_eq!(merged.len(), 1);
    assert_eq!(merged[0].job_id, "4500_7");
    assert_eq!(merged[0].job_name, "arrayjob");
    assert_eq!(merged[0].stdout.as_deref(), Some("/tmp/o"));
}

#[test]
fn unmatched_live_record_is_inserted() {
    let lines = vec![history_line("100", "old", "COMPLETED")];
    let rec = live_record("999", "/tmp/o", "/tmp/e");
    let merged = refresh_job_list(&history_text(&lines), vec![rec]).expect("non-empty");
    let ids: Vec<&str> = merged.iter().map(|j| j.job_id.as_str()).collect();
    assert_eq!(ids, vec!["100", "999"]);
    // An inserted queue record takes the queue's output paths as given.
    assert_eq!(merged[1].stdout.as_deref(), Some("/tmp/o"));
    assert_eq!(merged[1].stderr.as_deref(), Some("/tmp/e"));
}

#[test]
fn merged_registry_is_sorted_by_job_id() {
    let lines = vec![
        history_line("102", "c", "RUNNING"),
        history_line("100", "a", "RUNNING"),
        history_line("101", "b", "RUNNING"),
    ];
    let merged = refresh_job_list(&history_text(&lines), Vec::new()).expect("non-empty");
    let ids: Vec<&str> = merged.iter().map(|j| j.job_id.as_str()).collect();
    assert_eq!(ids, vec!["100", "101", "102"]);
}

#[test]
fn empty_poll_yields_nothing() {
    assert!(refresh_job_list("", Vec::new()).is_none());
    let header_only = history_text(&[]);
    assert!(refresh_job_list(&header_only, Vec::new()).is_none());
}

#[test]
fn slurm_job_new_sets_every_field() {
    let j = SlurmJob::new(
        "1".into(),
        "n".into(),
        "p".into(),
        "a".into(),
        "R".into(),
        "st".into(),
        "su".into(),
        "e".into(),
        "re".into(),
        "/w".into(),
        "tl".into(),
        "el".into(),
        Some("o".into()),
        None,
        "nl".into(),
    );
    assert_eq!(j.job_id, "1");
    assert_eq!(j.job_name, "n");
    assert_eq!(j.partition, "p");
    assert_eq!(j.account, "a");
    assert_eq!(j.state, "R");
    assert_eq!(j.start, "st");
    assert_eq!(j.submit, "su");
    assert_eq!(j.end, "e");
    assert_eq!(j.reason, "re");
    assert_eq!(j.work_dir, "/w");
    assert_eq!(j.time_limit, "tl");
    assert_eq!(j.elapsed_time, "el");
    assert_eq!(j.stdout.as_deref(), Some("o"));
    assert_eq!(j.stderr, None);
    assert_eq!(j.node_list, "nl");
}
