//! The job record: the immutable value the registry is made of, plus the
//! control-command shapes and the completion percentage read off a job's
//! elapsed and wall-clock times.

use vstd::prelude::*;
use vstd::string::*;

verus! {

/// One job as reported by the scheduler. Replaced wholesale on every poll;
/// never patched field by field outside the merge step.
#[derive(Debug, PartialEq, Eq, Hash, Default)]
pub struct SlurmJob {
    pub job_id: String,
    pub job_name: String,
    pub partition: String,
    pub account: String,
    pub state: String,
    pub start: String,
    pub submit: String,
    pub end: String,
    pub reason: String,
    pub work_dir: String,
    pub time_limit: String,
    pub elapsed_time: String,
    pub stdout: Option<String>,
    pub stderr: Option<String>,
    pub node_list: String,
}

/// The mathematical value of a job record: every field as a character
/// sequence.
pub struct JobView {
    pub job_id: Seq<char>,
    pub job_name: Seq<char>,
    pub partition: Seq<char>,
    pub account: Seq<char>,
    pub state: Seq<char>,
    pub start: Seq<char>,
    pub submit: Seq<char>,
    pub end: Seq<char>,
    pub reason: Seq<char>,
    pub work_dir: Seq<char>,
    pub time_limit: Seq<char>,
    pub elapsed_time: Seq<char>,
    pub stdout: Option<Seq<char>>,
    pub stderr: Option<Seq<char>>,
    pub node_list: Seq<char>,
}

impl View for SlurmJob {
    type V = JobView;

    open spec fn view(&self) -> JobView {
        JobView {
            job_id: self.job_id@,
            job_name: self.job_name@,
            partition: self.partition@,
            account: self.account@,
            state: self.state@,
            start: self.start@,
            submit: self.submit@,
            end: self.end@,
            reason: self.reason@,
            work_dir: self.work_dir@,
            time_limit: self.time_limit@,
            elapsed_time: self.elapsed_time@,
            stdout: match self.stdout {
                Some(s) => Some(s@),
                None => None,
            },
            stderr: match self.stderr {
                Some(s) => Some(s@),
                None => None,
            },
            node_list: self.node_list@,
        }
    }
}

impl DeepView for SlurmJob {
    type V = JobView;

    open spec fn deep_view(&self) -> JobView {
        self.view()
    }
}

impl Clone for SlurmJob {
    fn clone(&self) -> (r: Self)
        ensures
            r == *self,
    {
        SlurmJob {
            job_id: self.job_id.clone(),
            job_name: self.job_name.clone(),
            partition: self.partition.clone(),
            account: self.account.clone(),
            state: self.state.clone(),
            start: self.start.clone(),
            submit: self.submit.clone(),
            end: self.end.clone(),
            reason: self.reason.clone(),
            work_dir: self.work_dir.clone(),
            time_limit: self.time_limit.clone(),
            elapsed_time: self.elapsed_time.clone(),
            stdout: match &self.stdout {
                Some(s) => Some(s.clone()),
                None => None,
            },
            stderr: match &self.stderr {
                Some(s) => Some(s.clone()),
                None => None,
            },
            node_list: self.node_list.clone(),
        }
    }
}

impl SlurmJob {
    /// Builds a record from its parts.
    pub fn new(
        job_id: String,
        job_name: String,
        partition: String,
        account: String,
        state: String,
        start: String,
        submit: String,
        end: String,
        reason: String,
        work_dir: String,
        time_limit: String,
        elapsed_time: String,
        stdout: Option<String>,
        stderr: Option<String>,
        node_list: String,
    ) -> (r: SlurmJob)
        ensures
            (r == SlurmJob {
                job_id,
                job_name,
                partition,
                account,
                state,
                start,
                submit,
                end,
                reason,
                work_dir,
                time_limit,
                elapsed_time,
                stdout,
                stderr,
                node_list,
            }),
    {
        SlurmJob {
            job_id,
            job_name,
            partition,
            account,
            state,
            start,
            submit,
            end,
            reason,
            work_dir,
            time_limit,
            elapsed_time,
            stdout,
            stderr,
            node_list,
        }
    }

    /// The shell command that cancels this job.
    pub fn cancel_command(&self) -> (r: String)
        ensures
            r@ == "scancel "@ + self.job_id@,
    {
        let mut s = String::from_str("scancel ");
        s.append(self.job_id.as_str());
        s
    }

    /// The shell command that requeues this job.
    pub fn requeue_command(&self) -> (r: String)
        ensures
            r@ == "scontrol requeue "@ + self.job_id@,
    {
        let mut s = String::from_str("scontrol requeue ");
        s.append(self.job_id.as_str());
        s
    }

    /// Elapsed wall-clock time as an integer percentage of the limit,
    /// clamped to 100. A time string the scheduler did not standardize and
    /// chrono cannot parse counts as zero rather than failing.
    pub fn get_percent_completed(&self) -> (p: u16)
        ensures
            p == spec_percent(self.elapsed_time@, self.time_limit@),
            p <= 100,
    {
        let e = parse_clock_seconds(self.elapsed_time.as_str());
        let w = parse_clock_seconds(self.time_limit.as_str());
        match (e, w) {
            (Some(e), Some(w)) => {
                if w == 0 {
                    if e == 0 {
                        0
                    } else {
                        100
                    }
                } else {
                    let p: u32 = e * 100 / w;
                    if p > 100 {
                        100
                    } else {
                        p as u16
                    }
                }
            },
            _ => 0,
        }
    }
}

/// What chrono reads a clock string ("HH:MM:SS" and kin) as, in seconds
/// from midnight; unset where it does not parse.
pub uninterp spec fn time_str_seconds(s: Seq<char>) -> Option<u32>;

/// Completion percentage: elapsed seconds over limit seconds, floored and
/// clamped to 100; zero where either string does not parse. A zero limit
/// with elapsed time counts as fully elapsed.
pub open spec fn spec_percent(elapsed: Seq<char>, limit: Seq<char>) -> u16 {
    match (time_str_seconds(elapsed), time_str_seconds(limit)) {
        (Some(e), Some(w)) => if w == 0 {
            if e == 0 {
                0u16
            } else {
                100u16
            }
        } else if e * 100 / (w as int) > 100 {
            100u16
        } else {
            (e * 100 / (w as int)) as u16
        },
        _ => 0u16,
    }
}

/// Relies on chrono: `NaiveTime`'s `FromStr` parsing of a clock string,
/// then `Timelike::num_seconds_from_midnight` on the parsed time. The
/// result depends on the characters alone, and seconds from midnight stay
/// under 86400.
#[verifier::external_body]
fn parse_clock_seconds(s: &str) -> (r: Option<u32>)
    ensures
        r == time_str_seconds(s@),
        r is Some ==> r->0 < 86400,
{
    match <chrono::NaiveTime as core::str::FromStr>::from_str(s) {
        Ok(t) => Some(chrono::Timelike::num_seconds_from_midnight(&t)),
        Err(_) => None,
    }
}

} // verus!
