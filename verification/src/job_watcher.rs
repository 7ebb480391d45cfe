//! Building the job registry: parsing the two job-listing sources and
//! merging them into one sorted snapshot.
//!
//! The historical source lists completed jobs as `|`-delimited lines after
//! a header; pseudo-records are excluded and scheduler state names are
//! mapped to short codes. The live source lists the queue as `##`-delimited
//! lines; a live record matched by job id (or by its synthesized array
//! parent/task key) patches only the matched record's stdout/stderr paths —
//! and only where the caller saw those paths on disk — and backfills an
//! unknown start time; an unmatched one is inserted whole. The merged
//! registry is sorted ascending by job id.

use vstd::prelude::*;
use vstd::string::*;
use crate::slurm::{JobView, SlurmJob};
use crate::strutil::{
    contains_str,
    ends_with_str,
    lemma_lex_le_antisymmetric,
    lemma_lex_le_total,
    lemma_lex_le_trans,
    lemma_split_len,
    lex_le,
    spec_contains,
    spec_ends_with,
    spec_lines,
    spec_split,
    spec_split2,
    split_char,
    split_lines,
    split_str2,
    str_eq,
    str_lex_le,
};

verus! {

/// The scheduler's long state names mapped to short codes; an unknown
/// state passes through unchanged.
pub open spec fn spec_map_state(t: Seq<char>) -> Seq<char> {
    if t == "PENDING"@ {
        "PD"@
    } else if t == "RUNNING"@ {
        "R"@
    } else if t == "COMPLETED"@ {
        "CD"@
    } else if t == "FAILED"@ {
        "F"@
    } else if t == "CANCELLED"@ {
        "CA"@
    } else if t == "TIMEOUT"@ {
        "TO"@
    } else if t == "PREEMPTED"@ {
        "PR"@
    } else if t == "NODE_FAIL"@ {
        "NF"@
    } else if t == "REVOKED"@ {
        "RV"@
    } else if t == "SUSPENDED"@ {
        "S"@
    } else {
        t
    }
}

/// Maps a scheduler state name to its short code.
pub fn map_state(t: &str) -> (r: String)
    ensures
        r@ == spec_map_state(t@),
{
    if str_eq(t, "PENDING") {
        String::from_str("PD")
    } else if str_eq(t, "RUNNING") {
        String::from_str("R")
    } else if str_eq(t, "COMPLETED") {
        String::from_str("CD")
    } else if str_eq(t, "FAILED") {
        String::from_str("F")
    } else if str_eq(t, "CANCELLED") {
        String::from_str("CA")
    } else if str_eq(t, "TIMEOUT") {
        String::from_str("TO")
    } else if str_eq(t, "PREEMPTED") {
        String::from_str("PR")
    } else if str_eq(t, "NODE_FAIL") {
        String::from_str("NF")
    } else if str_eq(t, "REVOKED") {
        String::from_str("RV")
    } else if str_eq(t, "SUSPENDED") {
        String::from_str("S")
    } else {
        String::from_str(t)
    }
}

/// Everything up to the first space: the state field may carry a trailing
/// annotation ("CANCELLED by ...") that is not part of the state name.
pub open spec fn spec_first_token(s: Seq<char>) -> Seq<char> {
    spec_split(s, ' ')[0]
}

/// Returns everything up to the first space of `s`.
pub fn first_token(s: &str) -> (r: String)
    ensures
        r@ == spec_first_token(s@),
{
    let parts = split_char(s, ' ');
    proof {
        lemma_split_len(s@, ' ');
        assert(parts.deep_view()[0] == parts@[0]@);
    }
    parts[0].clone()
}

/// A historical line is excluded when its job id names a pseudo-record
/// ("batch" or "extern" steps, or a ".0" step suffix) or its name marks an
/// interactive session.
pub open spec fn spec_excluded(job_id: Seq<char>, name: Seq<char>) -> bool {
    ||| spec_contains(job_id, "batch"@)
    ||| spec_contains(job_id, "extern"@)
    ||| spec_ends_with(job_id, ".0"@)
    ||| name == "_interactive"@
}

/// Decides whether a historical record is a pseudo-record to drop.
pub fn excluded(job_id: &str, name: &str) -> (r: bool)
    ensures
        r == spec_excluded(job_id@, name@),
{
    contains_str(job_id, "batch") || contains_str(job_id, "extern") || ends_with_str(job_id, ".0")
        || str_eq(name, "_interactive")
}

/// What one historical line parses to: its thirteen `|`-delimited fields
/// as a record without output paths, or nothing for a short or excluded
/// line. The historical source never supplies stdout/stderr.
pub open spec fn spec_parse_history_line(line: Seq<char>) -> Option<JobView> {
    let parts = spec_split(line, '|');
    if parts.len() < 13 {
        None
    } else if spec_excluded(parts[0], parts[1]) {
        None
    } else {
        Some(
            JobView {
                job_id: parts[0],
                job_name: parts[1],
                partition: parts[2],
                account: parts[3],
                state: spec_map_state(spec_first_token(parts[7])),
                start: parts[5],
                submit: parts[4],
                end: parts[6],
                reason: parts[9],
                work_dir: parts[8],
                time_limit: parts[10],
                elapsed_time: parts[11],
                stdout: None,
                stderr: None,
                node_list: parts[12],
            },
        )
    }
}

/// Parses one line of the historical listing.
pub fn parse_history_line(line: &str) -> (r: Option<SlurmJob>)
    ensures
        r.deep_view() == spec_parse_history_line(line@),
{
    let parts = split_char(line, '|');
    proof {
        assert(parts.deep_view().len() == parts@.len());
        assert(forall|k: int|
            0 <= k < parts@.len() ==> #[trigger] parts.deep_view()[k] == parts@[k]@);
    }
    if parts.len() < 13 {
        return None;
    }
    if excluded(parts[0].as_str(), parts[1].as_str()) {
        return None;
    }
    let tok = first_token(parts[7].as_str());
    let state = map_state(tok.as_str());
    Some(
        SlurmJob {
            job_id: parts[0].clone(),
            job_name: parts[1].clone(),
            partition: parts[2].clone(),
            account: parts[3].clone(),
            state,
            start: parts[5].clone(),
            submit: parts[4].clone(),
            end: parts[6].clone(),
            reason: parts[9].clone(),
            work_dir: parts[8].clone(),
            time_limit: parts[10].clone(),
            elapsed_time: parts[11].clone(),
            stdout: None,
            stderr: None,
            node_list: parts[12].clone(),
        },
    )
}

/// `id` is already the job id of some record in `jobs`.
pub open spec fn spec_has_id(jobs: Seq<JobView>, id: Seq<char>) -> bool {
    exists|k: int| 0 <= k < jobs.len() && (#[trigger] jobs[k].job_id) == id
}

/// True when some record in `jobs` carries the job id `id`.
pub fn has_id(jobs: &Vec<SlurmJob>, id: &str) -> (r: bool)
    ensures
        r == spec_has_id(jobs.deep_view(), id@),
{
    let mut k: usize = 0;
    while k < jobs.len()
        invariant
            k <= jobs.len(),
            forall|m: int| 0 <= m < k ==> (#[trigger] jobs.deep_view()[m].job_id) != id@,
        decreases jobs.len() - k,
    {
        if str_eq(jobs[k].job_id.as_str(), id) {
            proof {
                assert(jobs.deep_view()[k as int].job_id == id@);
            }
            return true;
        }
        k += 1;
    }
    false
}

/// One step of reading the historical listing: a parsed record is added
/// unless its job id is already present; an excluded or malformed line adds
/// nothing.
pub open spec fn spec_history_step(acc: Seq<JobView>, line: Seq<char>) -> Seq<JobView> {
    match spec_parse_history_line(line) {
        Some(v) => if spec_has_id(acc, v.job_id) {
            acc
        } else {
            acc.push(v)
        },
        None => acc,
    }
}

pub open spec fn spec_history_fold(lines: Seq<Seq<char>>) -> Seq<JobView>
    decreases lines.len(),
{
    if lines.len() == 0 {
        Seq::empty()
    } else {
        spec_history_step(spec_history_fold(lines.drop_last()), lines.last())
    }
}

/// The records of the whole historical listing, in line order, first
/// occurrence of each job id kept; the first line is the header.
pub open spec fn spec_parse_history(text: Seq<char>) -> Seq<JobView> {
    let lines = spec_lines(text);
    if lines.len() == 0 {
        Seq::empty()
    } else {
        spec_history_fold(lines.drop_first())
    }
}

/// Parses the historical listing, skipping its header line.
pub fn parse_history(text: &str) -> (r: Vec<SlurmJob>)
    ensures
        r.deep_view() == spec_parse_history(text@),
{
    let lines = split_lines(text);
    let mut r: Vec<SlurmJob> = Vec::new();
    proof {
        assert(lines.deep_view().len() == lines@.len());
    }
    if lines.len() == 0 {
        proof {
            assert(r.deep_view() =~~= spec_parse_history(text@));
        }
        return r;
    }
    let mut i: usize = 1;
    proof {
        assert(lines.deep_view().subrange(1, 1) =~= Seq::<Seq<char>>::empty());
    }
    while i < lines.len()
        invariant
            1 <= i <= lines.len(),
            lines.deep_view() == spec_lines(text@),
            lines.deep_view().len() == lines@.len(),
            r.deep_view() == spec_history_fold(lines.deep_view().subrange(1, i as int)),
        decreases lines.len() - i,
    {
        let ghost pre = lines.deep_view().subrange(1, i as int);
        let ghost cur = lines.deep_view().subrange(1, i + 1);
        proof {
            assert(lines.deep_view()[i as int] == lines@[i as int]@);
            assert(cur.drop_last() =~= pre);
            assert(cur.last() == lines.deep_view()[i as int]);
        }
        match parse_history_line(lines[i].as_str()) {
            Some(j) => {
                if !has_id(&r, j.job_id.as_str()) {
                    let ghost prev = r.deep_view();
                    let ghost jv = j.deep_view();
                    proof {
                        assert(jv.job_id == j.job_id@);
                    }
                    r.push(j);
                    proof {
                        assert(r.deep_view() =~~= prev.push(jv));
                    }
                }
            },
            None => {},
        }
        i += 1;
    }
    proof {
        assert(lines.deep_view().subrange(1, lines@.len() as int) =~= lines.deep_view().drop_first());
    }
    r
}

/// One record of the live queue listing. The two `*_exists` flags say
/// whether the caller found the stdout/stderr paths on disk; the parser
/// leaves them false, and only the merge step reads them.
pub struct LiveJob {
    pub job_id: String,
    pub job_name: String,
    pub partition: String,
    pub account: String,
    pub submit: String,
    pub start: String,
    pub end: String,
    pub state: String,
    pub work_dir: String,
    pub reason: String,
    pub time_limit: String,
    pub elapsed_time: String,
    pub stdout: String,
    pub stderr: String,
    pub node_list: String,
    pub array_key: String,
    pub stdout_exists: bool,
    pub stderr_exists: bool,
}

/// The mathematical value of a live record.
pub struct LiveView {
    pub job_id: Seq<char>,
    pub job_name: Seq<char>,
    pub partition: Seq<char>,
    pub account: Seq<char>,
    pub submit: Seq<char>,
    pub start: Seq<char>,
    pub end: Seq<char>,
    pub state: Seq<char>,
    pub work_dir: Seq<char>,
    pub reason: Seq<char>,
    pub time_limit: Seq<char>,
    pub elapsed_time: Seq<char>,
    pub stdout: Seq<char>,
    pub stderr: Seq<char>,
    pub node_list: Seq<char>,
    pub array_key: Seq<char>,
    pub stdout_exists: bool,
    pub stderr_exists: bool,
}

impl View for LiveJob {
    type V = LiveView;

    open spec fn view(&self) -> LiveView {
        LiveView {
            job_id: self.job_id@,
            job_name: self.job_name@,
            partition: self.partition@,
            account: self.account@,
            submit: self.submit@,
            start: self.start@,
            end: self.end@,
            state: self.state@,
            work_dir: self.work_dir@,
            reason: self.reason@,
            time_limit: self.time_limit@,
            elapsed_time: self.elapsed_time@,
            stdout: self.stdout@,
            stderr: self.stderr@,
            node_list: self.node_list@,
            array_key: self.array_key@,
            stdout_exists: self.stdout_exists,
            stderr_exists: self.stderr_exists,
        }
    }
}

impl DeepView for LiveJob {
    type V = LiveView;

    open spec fn deep_view(&self) -> LiveView {
        self.view()
    }
}

/// What one live line parses to: its seventeen `##`-delimited fields, the
/// state mapped to its short code, and the array parent/task pair
/// synthesized into one key; nothing for a short line. Existence flags
/// start out false.
pub open spec fn spec_parse_live_line(line: Seq<char>) -> Option<LiveView> {
    let parts = spec_split2(line, '#', '#');
    if parts.len() < 17 {
        None
    } else {
        Some(
            LiveView {
                job_id: parts[0],
                job_name: parts[1],
                partition: parts[2],
                account: parts[3],
                submit: parts[4],
                start: parts[5],
                end: parts[6],
                state: spec_map_state(spec_first_token(parts[7])),
                work_dir: parts[8],
                reason: parts[9],
                time_limit: parts[10],
                elapsed_time: parts[11],
                stdout: parts[12],
                stderr: parts[13],
                node_list: parts[14],
                array_key: parts[15] + "_"@ + parts[16],
                stdout_exists: false,
                stderr_exists: false,
            },
        )
    }
}

/// Parses one line of the live queue listing.
pub fn parse_live_line(line: &str) -> (r: Option<LiveJob>)
    ensures
        r.deep_view() == spec_parse_live_line(line@),
{
    let parts = split_str2(line, '#', '#');
    proof {
        assert(parts.deep_view().len() == parts@.len());
        assert(forall|k: int|
            0 <= k < parts@.len() ==> #[trigger] parts.deep_view()[k] == parts@[k]@);
    }
    if parts.len() < 17 {
        return None;
    }
    let tok = first_token(parts[7].as_str());
    let state = map_state(tok.as_str());
    let mut array_key = parts[15].clone();
    array_key.append("_");
    array_key.append(parts[16].as_str());
    Some(
        LiveJob {
            job_id: parts[0].clone(),
            job_name: parts[1].clone(),
            partition: parts[2].clone(),
            account: parts[3].clone(),
            submit: parts[4].clone(),
            start: parts[5].clone(),
            end: parts[6].clone(),
            state,
            work_dir: parts[8].clone(),
            reason: parts[9].clone(),
            time_limit: parts[10].clone(),
            elapsed_time: parts[11].clone(),
            stdout: parts[12].clone(),
            stderr: parts[13].clone(),
            node_list: parts[14].clone(),
            array_key,
            stdout_exists: false,
            stderr_exists: false,
        },
    )
}

pub open spec fn spec_live_fold(lines: Seq<Seq<char>>) -> Seq<LiveView>
    decreases lines.len(),
{
    if lines.len() == 0 {
        Seq::empty()
    } else {
        let prev = spec_live_fold(lines.drop_last());
        match spec_parse_live_line(lines.last()) {
            Some(v) => prev.push(v),
            None => prev,
        }
    }
}

/// The records of the whole live listing, in line order; the listing has
/// no header.
pub open spec fn spec_parse_live(text: Seq<char>) -> Seq<LiveView> {
    spec_live_fold(spec_lines(text))
}

/// Parses the live queue listing.
pub fn parse_live(text: &str) -> (r: Vec<LiveJob>)
    ensures
        r.deep_view() == spec_parse_live(text@),
{
    let lines = split_lines(text);
    let mut r: Vec<LiveJob> = Vec::new();
    proof {
        assert(lines.deep_view().len() == lines@.len());
        assert(lines.deep_view().subrange(0, 0) =~= Seq::<Seq<char>>::empty());
    }
    let mut i: usize = 0;
    while i < lines.len()
        invariant
            i <= lines.len(),
            lines.deep_view() == spec_lines(text@),
            lines.deep_view().len() == lines@.len(),
            r.deep_view() == spec_live_fold(lines.deep_view().subrange(0, i as int)),
        decreases lines.len() - i,
    {
        let ghost pre = lines.deep_view().subrange(0, i as int);
        let ghost cur = lines.deep_view().subrange(0, i + 1);
        proof {
            assert(lines.deep_view()[i as int] == lines@[i as int]@);
            assert(cur.drop_last() =~= pre);
            assert(cur.last() == lines.deep_view()[i as int]);
        }
        match parse_live_line(lines[i].as_str()) {
            Some(j) => {
                let ghost prev = r.deep_view();
                let ghost jv = j.deep_view();
                r.push(j);
                proof {
                    assert(r.deep_view() =~~= prev.push(jv));
                }
            },
            None => {},
        }
        i += 1;
    }
    proof {
        assert(lines.deep_view().subrange(0, lines@.len() as int) =~= lines.deep_view());
    }
    r
}

/// A registry record is matched by a live record with its own job id or
/// with the synthesized array parent/task key.
pub open spec fn spec_matches_live(j: JobView, id: Seq<char>, ak: Seq<char>) -> bool {
    j.job_id == id || j.job_id == ak
}

/// The first index whose record the live record matches, or the length
/// where none does.
pub open spec fn spec_find_match(jobs: Seq<JobView>, id: Seq<char>, ak: Seq<char>) -> int
    decreases jobs.len(),
{
    if jobs.len() == 0 {
        0
    } else if spec_matches_live(jobs[0], id, ak) {
        0
    } else {
        1 + spec_find_match(jobs.drop_first(), id, ak)
    }
}

pub proof fn lemma_find_match_props(jobs: Seq<JobView>, id: Seq<char>, ak: Seq<char>)
    ensures
        0 <= spec_find_match(jobs, id, ak) <= jobs.len(),
        spec_find_match(jobs, id, ak) < jobs.len() ==> spec_matches_live(
            jobs[spec_find_match(jobs, id, ak)],
            id,
            ak,
        ),
        forall|k: int|
            0 <= k < spec_find_match(jobs, id, ak) ==> !spec_matches_live(
                #[trigger] jobs[k],
                id,
                ak,
            ),
    decreases jobs.len(),
{
    if jobs.len() == 0 {
    } else if spec_matches_live(jobs[0], id, ak) {
    } else {
        lemma_find_match_props(jobs.drop_first(), id, ak);
        assert forall|k: int|
            0 <= k < spec_find_match(jobs, id, ak) implies !spec_matches_live(
            #[trigger] jobs[k],
            id,
            ak,
        ) by {
            if k > 0 {
                assert(jobs[k] == jobs.drop_first()[k - 1]);
            }
        }
    }
}

/// A matched record patched from the live source: stdout/stderr replaced
/// only where the caller saw the path on disk, an unknown start time
/// backfilled, everything else kept.
pub open spec fn spec_patched(j: JobView, rec: LiveView) -> JobView {
    JobView {
        stdout: if rec.stdout_exists {
            Some(rec.stdout)
        } else {
            j.stdout
        },
        stderr: if rec.stderr_exists {
            Some(rec.stderr)
        } else {
            j.stderr
        },
        start: if j.start == "Unknown"@ && rec.start != "Unknown"@ {
            rec.start
        } else {
            j.start
        },
        ..j
    }
}

/// A registry record made of an unmatched live record: the queue's own
/// output paths are taken as given.
pub open spec fn spec_live_record(rec: LiveView) -> JobView {
    JobView {
        job_id: rec.job_id,
        job_name: rec.job_name,
        partition: rec.partition,
        account: rec.account,
        state: rec.state,
        start: rec.start,
        submit: rec.submit,
        end: rec.end,
        reason: rec.reason,
        work_dir: rec.work_dir,
        time_limit: rec.time_limit,
        elapsed_time: rec.elapsed_time,
        stdout: Some(rec.stdout),
        stderr: Some(rec.stderr),
        node_list: rec.node_list,
    }
}

/// One live record folded into the registry: the first matched record is
/// patched, an unmatched record is appended.
pub open spec fn spec_apply_live(jobs: Seq<JobView>, rec: LiveView) -> Seq<JobView> {
    let f = spec_find_match(jobs, rec.job_id, rec.array_key);
    if f < jobs.len() {
        jobs.update(f, spec_patched(jobs[f], rec))
    } else {
        jobs.push(spec_live_record(rec))
    }
}

/// Folds one live record into the registry.
pub fn apply_live(jobs: &mut Vec<SlurmJob>, rec: &LiveJob)
    ensures
        final(jobs).deep_view() == spec_apply_live(old(jobs).deep_view(), rec@),
{
    let ghost jobs0 = old(jobs).deep_view();
    let ghost recv = rec@;
    proof {
        lemma_find_match_props(jobs0, recv.job_id, recv.array_key);
        assert(jobs.deep_view().len() == jobs@.len());
    }
    let mut k: usize = 0;
    while k < jobs.len()
        invariant
            k <= jobs.len(),
            jobs.deep_view() == jobs0,
            jobs0 == old(jobs).deep_view(),
            jobs.deep_view().len() == jobs@.len(),
            recv == rec@,
            forall|m: int| 0 <= m < k ==> !spec_matches_live(#[trigger] jobs0[m], recv.job_id, recv.array_key),
        decreases jobs.len() - k,
    {
        let m1 = str_eq(jobs[k].job_id.as_str(), rec.job_id.as_str());
        let m2 = str_eq(jobs[k].job_id.as_str(), rec.array_key.as_str());
        if m1 || m2 {
            proof {
                assert(spec_matches_live(jobs0[k as int], recv.job_id, recv.array_key));
                lemma_find_match_props(jobs0, recv.job_id, recv.array_key);
                assert(spec_find_match(jobs0, recv.job_id, recv.array_key) == k as int);
            }
            let cur = jobs.remove(k);
            let ghost curv = cur@;
            proof {
                assert(curv == jobs0[k as int]);
                assert(jobs.deep_view() =~~= jobs0.remove(k as int));
            }
            let start_unknown = str_eq(cur.start.as_str(), "Unknown");
            let rec_start_unknown = str_eq(rec.start.as_str(), "Unknown");
            let new_start = if start_unknown && !rec_start_unknown {
                rec.start.clone()
            } else {
                cur.start
            };
            let new_stdout = if rec.stdout_exists {
                Some(rec.stdout.clone())
            } else {
                cur.stdout
            };
            let new_stderr = if rec.stderr_exists {
                Some(rec.stderr.clone())
            } else {
                cur.stderr
            };
            let patched = SlurmJob {
                job_id: cur.job_id,
                job_name: cur.job_name,
                partition: cur.partition,
                account: cur.account,
                state: cur.state,
                start: new_start,
                submit: cur.submit,
                end: cur.end,
                reason: cur.reason,
                work_dir: cur.work_dir,
                time_limit: cur.time_limit,
                elapsed_time: cur.elapsed_time,
                stdout: new_stdout,
                stderr: new_stderr,
                node_list: cur.node_list,
            };
            proof {
                assert(patched@ == spec_patched(curv, recv));
            }
            jobs.insert(k, patched);
            proof {
                assert(jobs.deep_view() =~~= jobs0.remove(k as int).insert(k as int, patched@));
                assert(jobs.deep_view() =~~= jobs0.update(
                    k as int,
                    spec_patched(jobs0[k as int], recv),
                ));
                assert(jobs.deep_view() =~~= spec_apply_live(jobs0, recv));
            }
            return ;
        }
        k += 1;
    }
    proof {
        lemma_find_match_props(jobs0, recv.job_id, recv.array_key);
        assert(spec_find_match(jobs0, recv.job_id, recv.array_key) == jobs0.len());
    }
    let fresh = SlurmJob {
        job_id: rec.job_id.clone(),
        job_name: rec.job_name.clone(),
        partition: rec.partition.clone(),
        account: rec.account.clone(),
        state: rec.state.clone(),
        start: rec.start.clone(),
        submit: rec.submit.clone(),
        end: rec.end.clone(),
        reason: rec.reason.clone(),
        work_dir: rec.work_dir.clone(),
        time_limit: rec.time_limit.clone(),
        elapsed_time: rec.elapsed_time.clone(),
        stdout: Some(rec.stdout.clone()),
        stderr: Some(rec.stderr.clone()),
        node_list: rec.node_list.clone(),
    };
    proof {
        assert(fresh@ == spec_live_record(recv));
    }
    jobs.push(fresh);
    proof {
        assert(jobs.deep_view() =~~= jobs0.push(spec_live_record(recv)));
        assert(jobs.deep_view() =~~= spec_apply_live(old(jobs).deep_view(), rec@));
    }
}

/// Every live record folded into the registry, in order.
pub open spec fn spec_apply_all(jobs: Seq<JobView>, recs: Seq<LiveView>) -> Seq<JobView>
    decreases recs.len(),
{
    if recs.len() == 0 {
        jobs
    } else {
        spec_apply_all(spec_apply_live(jobs, recs[0]), recs.drop_first())
    }
}

/// Folds every live record into the registry.
pub fn apply_all(jobs: &mut Vec<SlurmJob>, recs: Vec<LiveJob>)
    ensures
        final(jobs).deep_view() == spec_apply_all(old(jobs).deep_view(), recs.deep_view()),
{
    let ghost jobs0 = old(jobs).deep_view();
    let ghost recs0 = recs.deep_view();
    let mut recs = recs;
    while recs.len() > 0
        invariant
            spec_apply_all(jobs.deep_view(), recs.deep_view()) == spec_apply_all(jobs0, recs0),
        decreases recs.len(),
    {
        let ghost pre = recs.deep_view();
        let rec = recs.remove(0);
        proof {
            assert(recs.deep_view() =~~= pre.drop_first());
            assert(rec@ == pre[0]);
        }
        apply_live(jobs, &rec);
    }
    proof {
        assert(recs.deep_view().len() == 0);
    }
}

/// The registry order: ascending by job id.
pub open spec fn jobs_sorted(s: Seq<JobView>) -> bool {
    forall|a: int, b: int|
        #![trigger s[a], s[b]]
        0 <= a < b < s.len() ==> lex_le(s[a].job_id, s[b].job_id)
}

/// No two registry records share a job id.
pub open spec fn ids_unique(s: Seq<JobView>) -> bool {
    forall|a: int, b: int|
        #![trigger s[a], s[b]]
        0 <= a < b < s.len() ==> s[a].job_id != s[b].job_id
}

/// Inserts a record into a sorted list, keeping it sorted.
fn insert_sorted(out: &mut Vec<SlurmJob>, x: SlurmJob)
    requires
        jobs_sorted(old(out).deep_view()),
    ensures
        jobs_sorted(final(out).deep_view()),
        final(out).deep_view().to_multiset() == old(out).deep_view().to_multiset().insert(x@),
{
    broadcast use vstd::seq_lib::group_to_multiset_ensures;

    let ghost out0 = old(out).deep_view();
    let ghost xv = x@;
    let mut p: usize = 0;
    while p < out.len() && str_lex_le(out[p].job_id.as_str(), x.job_id.as_str())
        invariant
            p <= out.len(),
            out.deep_view() == out0,
            out0 == old(out).deep_view(),
            xv == x@,
            out.deep_view().len() == out@.len(),
            forall|m: int| 0 <= m < p ==> lex_le((#[trigger] out0[m]).job_id, xv.job_id),
        decreases out.len() - p,
    {
        proof {
            assert(out0[p as int].job_id == out@[p as int].job_id@);
        }
        p += 1;
    }
    proof {
        if (p as int) < out0.len() {
            lemma_lex_le_total(out0[p as int].job_id, xv.job_id);
        }
    }
    out.insert(p, x);
    proof {
        assert(out.deep_view() =~~= out0.insert(p as int, xv));
        let n = out0.insert(p as int, xv);
        assert forall|a: int, b: int|
            #![trigger n[a], n[b]]
            0 <= a < b < n.len() implies lex_le(n[a].job_id, n[b].job_id) by {
            if b < p {
                assert(n[a] == out0[a] && n[b] == out0[b]);
            } else if b == p {
                assert(n[a] == out0[a] && n[b] == xv);
            } else if a < p {
                assert(n[a] == out0[a] && n[b] == out0[b - 1]);
            } else if a == p {
                assert(n[a] == xv && n[b] == out0[b - 1]);
                assert(lex_le(xv.job_id, out0[p as int].job_id));
                if b - 1 > p {
                    lemma_lex_le_trans(xv.job_id, out0[p as int].job_id, out0[b - 1].job_id);
                }
            } else {
                assert(n[a] == out0[a - 1] && n[b] == out0[b - 1]);
            }
        }
        vstd::seq_lib::to_multiset_insert(out0, p as int, xv);
        assert(out.deep_view().to_multiset() == out0.to_multiset().insert(xv));
    }
}

/// Sorts a job list ascending by job id; the result is a permutation of
/// the input.
pub fn sort_jobs(list: Vec<SlurmJob>) -> (r: Vec<SlurmJob>)
    ensures
        jobs_sorted(r.deep_view()),
        r.deep_view().to_multiset() == list.deep_view().to_multiset(),
{
    broadcast use vstd::seq_lib::group_to_multiset_ensures;
    broadcast use vstd::multiset::group_multiset_axioms;

    let ghost src0 = list.deep_view();
    let mut src = list;
    let mut out: Vec<SlurmJob> = Vec::new();
    proof {
        assert(out.deep_view() =~~= Seq::<JobView>::empty());
        assert(out.deep_view().to_multiset().add(src.deep_view().to_multiset()) =~= src0.to_multiset());
    }
    while src.len() > 0
        invariant
            jobs_sorted(out.deep_view()),
            out.deep_view().to_multiset().add(src.deep_view().to_multiset()) == src0.to_multiset(),
            src.deep_view().len() == src@.len(),
        decreases src.len(),
    {
        let ghost pre = src.deep_view();
        let ghost outm = out.deep_view().to_multiset();
        let x = src.remove(0);
        proof {
            assert(src.deep_view() =~~= pre.drop_first());
            assert(x@ == pre[0]);
            vstd::seq_lib::to_multiset_remove(pre, 0);
            assert(pre.contains(pre[0]));
            vstd::seq_lib::to_multiset_contains(pre, pre[0]);
            assert(pre.to_multiset().count(pre[0]) > 0);
            assert(src.deep_view().to_multiset() =~= pre.to_multiset().remove(pre[0]));
        }
        insert_sorted(&mut out, x);
        proof {
            assert(out.deep_view().to_multiset() == outm.insert(pre[0]));
            assert(outm.insert(pre[0]).add(pre.to_multiset().remove(pre[0])) =~= outm.add(
                pre.to_multiset(),
            ));
        }
    }
    proof {
        assert(src.deep_view() =~~= Seq::<JobView>::empty());
        assert(out.deep_view().to_multiset().add(src.deep_view().to_multiset()) =~= out.deep_view().to_multiset());
    }
    out
}

/// No record parsed from the historical listing is an excluded
/// pseudo-record: an excluded line yields nothing, so it never reaches the
/// registry.
pub proof fn lemma_history_fold_not_excluded(lines: Seq<Seq<char>>)
    ensures
        forall|k: int|
            0 <= k < spec_history_fold(lines).len() ==> !spec_excluded(
                (#[trigger] spec_history_fold(lines)[k]).job_id,
                spec_history_fold(lines)[k].job_name,
            ),
    decreases lines.len(),
{
    if lines.len() == 0 {
    } else {
        lemma_history_fold_not_excluded(lines.drop_last());
    }
}

/// Law: a historical line whose job id names a pseudo-record, or whose
/// name marks an interactive session, never appears in the parsed
/// historical registry.
pub proof fn lemma_history_not_excluded(text: Seq<char>)
    ensures
        forall|k: int|
            0 <= k < spec_parse_history(text).len() ==> !spec_excluded(
                (#[trigger] spec_parse_history(text)[k]).job_id,
                spec_parse_history(text)[k].job_name,
            ),
{
    if spec_lines(text).len() == 0 {
    } else {
        lemma_history_fold_not_excluded(spec_lines(text).drop_first());
    }
}

pub proof fn lemma_history_fold_unique(lines: Seq<Seq<char>>)
    ensures
        ids_unique(spec_history_fold(lines)),
    decreases lines.len(),
{
    if lines.len() == 0 {
    } else {
        lemma_history_fold_unique(lines.drop_last());
        let acc = spec_history_fold(lines.drop_last());
        let f = spec_history_fold(lines);
        match spec_parse_history_line(lines.last()) {
            Some(v) => {
                if spec_has_id(acc, v.job_id) {
                } else {
                    assert forall|a: int, b: int|
                        #![trigger f[a], f[b]]
                        0 <= a < b < f.len() implies f[a].job_id != f[b].job_id by {
                        if b < acc.len() {
                            assert(f[a] == acc[a] && f[b] == acc[b]);
                        } else {
                            assert(f[a] == acc[a] && f[b] == v);
                            assert(acc[a].job_id != v.job_id);
                        }
                    }
                }
            },
            None => {},
        }
    }
}

pub proof fn lemma_apply_live_unique(jobs: Seq<JobView>, rec: LiveView)
    requires
        ids_unique(jobs),
    ensures
        ids_unique(spec_apply_live(jobs, rec)),
{
    lemma_find_match_props(jobs, rec.job_id, rec.array_key);
    let f = spec_find_match(jobs, rec.job_id, rec.array_key);
    let u = spec_apply_live(jobs, rec);
    if f < jobs.len() {
        assert forall|a: int, b: int|
            #![trigger u[a], u[b]]
            0 <= a < b < u.len() implies u[a].job_id != u[b].job_id by {
            assert(u[a].job_id == jobs[a].job_id);
            assert(u[b].job_id == jobs[b].job_id);
        }
    } else {
        assert forall|a: int, b: int|
            #![trigger u[a], u[b]]
            0 <= a < b < u.len() implies u[a].job_id != u[b].job_id by {
            if b < jobs.len() {
                assert(u[a] == jobs[a] && u[b] == jobs[b]);
            } else {
                assert(u[a] == jobs[a]);
                assert(u[b].job_id == rec.job_id);
                assert(!spec_matches_live(jobs[a], rec.job_id, rec.array_key));
            }
        }
    }
}

pub proof fn lemma_apply_all_unique(jobs: Seq<JobView>, recs: Seq<LiveView>)
    requires
        ids_unique(jobs),
    ensures
        ids_unique(spec_apply_all(jobs, recs)),
    decreases recs.len(),
{
    if recs.len() == 0 {
    } else {
        lemma_apply_live_unique(jobs, recs[0]);
        lemma_apply_all_unique(spec_apply_live(jobs, recs[0]), recs.drop_first());
    }
}

/// Law: the merged registry never holds two records with the same job id.
pub proof fn lemma_merged_ids_unique(text: Seq<char>, recs: Seq<LiveView>)
    ensures
        ids_unique(spec_merged(text, recs)),
{
    if spec_lines(text).len() == 0 {
        assert(ids_unique(spec_parse_history(text)));
    } else {
        lemma_history_fold_unique(spec_lines(text).drop_first());
    }
    lemma_apply_all_unique(spec_parse_history(text), recs);
}

/// Law: a live record sharing a job id with a historical record leaves
/// every field of the matched record unchanged except stdout/stderr —
/// replaced exactly when the caller saw the path on disk — and an unknown
/// start time, which the live start backfills; all other records are
/// untouched.
pub proof fn lemma_merge_patch(jobs: Seq<JobView>, rec: LiveView)
    requires
        spec_find_match(jobs, rec.job_id, rec.array_key) < jobs.len(),
    ensures
        ({
            let f = spec_find_match(jobs, rec.job_id, rec.array_key);
            let u = spec_apply_live(jobs, rec);
            &&& u.len() == jobs.len()
            &&& u[f].stdout == (if rec.stdout_exists {
                Some(rec.stdout)
            } else {
                jobs[f].stdout
            })
            &&& u[f].stderr == (if rec.stderr_exists {
                Some(rec.stderr)
            } else {
                jobs[f].stderr
            })
            &&& u[f].start == (if jobs[f].start == "Unknown"@ && rec.start != "Unknown"@ {
                rec.start
            } else {
                jobs[f].start
            })
            &&& u[f].job_id == jobs[f].job_id
            &&& u[f].job_name == jobs[f].job_name
            &&& u[f].partition == jobs[f].partition
            &&& u[f].account == jobs[f].account
            &&& u[f].state == jobs[f].state
            &&& u[f].submit == jobs[f].submit
            &&& u[f].end == jobs[f].end
            &&& u[f].reason == jobs[f].reason
            &&& u[f].work_dir == jobs[f].work_dir
            &&& u[f].time_limit == jobs[f].time_limit
            &&& u[f].elapsed_time == jobs[f].elapsed_time
            &&& u[f].node_list == jobs[f].node_list
            &&& forall|k: int| 0 <= k < jobs.len() && k != f ==> #[trigger] u[k] == jobs[k]
        }),
{
    lemma_find_match_props(jobs, rec.job_id, rec.array_key);
}

/// A sequence with the same records as one without duplicate job ids has
/// none either, in whatever order.
pub proof fn lemma_permutation_keeps_ids_unique(x: Seq<JobView>, y: Seq<JobView>)
    requires
        x.to_multiset() == y.to_multiset(),
        ids_unique(x),
    ensures
        ids_unique(y),
{
    broadcast use vstd::seq_lib::group_to_multiset_ensures;
    broadcast use vstd::multiset::group_multiset_axioms;

    assert forall|a: int, b: int|
        #![trigger y[a], y[b]]
        0 <= a < b < y.len() implies y[a].job_id != y[b].job_id by {
        let va = y[a];
        let vb = y[b];
        if va.job_id == vb.job_id {
            if va == vb {
                // The value sits at two positions of `y`, so its count is
                // at least two in both multisets.
                vstd::seq_lib::to_multiset_remove(y, a);
                assert(y.remove(a)[b - 1] == vb);
                assert(y.remove(a).contains(va));
                vstd::seq_lib::to_multiset_contains(y.remove(a), va);
                assert(y.to_multiset().count(va) >= 2);
                assert(x.to_multiset().count(va) >= 2);
                // Two counts in `x` mean two distinct positions in `x`.
                vstd::seq_lib::to_multiset_contains(x, va);
                assert(x.contains(va));
                let i = choose|i: int| 0 <= i < x.len() && x[i] == va;
                vstd::seq_lib::to_multiset_remove(x, i);
                vstd::seq_lib::to_multiset_contains(x.remove(i), va);
                assert(x.remove(i).contains(va));
                let j = choose|j: int| 0 <= j < x.remove(i).len() && x.remove(i)[j] == va;
                if j < i {
                    assert(x[j] == va);
                    assert(x[j].job_id == x[i].job_id);
                } else {
                    assert(x[j + 1] == va);
                    assert(x[i].job_id == x[j + 1].job_id);
                }
            } else {
                // Two distinct values with one job id both sit in `x`.
                vstd::seq_lib::to_multiset_contains(y, va);
                vstd::seq_lib::to_multiset_contains(y, vb);
                vstd::seq_lib::to_multiset_contains(x, va);
                vstd::seq_lib::to_multiset_contains(x, vb);
                assert(x.contains(va));
                assert(x.contains(vb));
                let i = choose|i: int| 0 <= i < x.len() && x[i] == va;
                let j = choose|j: int| 0 <= j < x.len() && x[j] == vb;
                assert(x[i].job_id == x[j].job_id);
            }
        }
    }
}

/// The snapshot contract is deterministic: two sorted sequences holding
/// the same records, without duplicate job ids, are one and the same.
pub proof fn lemma_sorted_registry_unique(x: Seq<JobView>, y: Seq<JobView>)
    requires
        jobs_sorted(x),
        jobs_sorted(y),
        ids_unique(x),
        x.to_multiset() == y.to_multiset(),
    ensures
        x == y,
    decreases x.len(),
{
    broadcast use vstd::seq_lib::group_to_multiset_ensures;
    broadcast use vstd::multiset::group_multiset_axioms;

    if x.len() == 0 {
        assert(y.to_multiset().len() == 0);
        assert(x =~= y);
    } else {
        vstd::seq_lib::to_multiset_len(x);
        vstd::seq_lib::to_multiset_len(y);
        assert(x.len() == y.len());
        // The two heads are the same record.
        vstd::seq_lib::to_multiset_contains(y, y[0]);
        vstd::seq_lib::to_multiset_contains(x, y[0]);
        assert(x.contains(y[0]));
        let i = choose|i: int| 0 <= i < x.len() && x[i] == y[0];
        if i > 0 {
            vstd::seq_lib::to_multiset_contains(x, x[0]);
            vstd::seq_lib::to_multiset_contains(y, x[0]);
            assert(y.contains(x[0]));
            let j = choose|j: int| 0 <= j < y.len() && y[j] == x[0];
            if j > 0 {
                // Both heads precede each other, so their ids coincide —
                // but then `x` holds that id twice.
                assert(lex_le(x[0].job_id, x[i].job_id));
                assert(lex_le(y[0].job_id, y[j].job_id));
                lemma_lex_le_antisymmetric(x[0].job_id, y[0].job_id);
                assert(x[0].job_id == x[i].job_id);
                assert(false);
            }
            assert(y[0] == x[0]);
        }
        assert(x[0] == y[0]);
        // Equal heads leave equal tails.
        let xt = x.drop_first();
        let yt = y.drop_first();
        vstd::seq_lib::to_multiset_remove(x, 0);
        vstd::seq_lib::to_multiset_remove(y, 0);
        assert(x.remove(0) =~= xt);
        assert(y.remove(0) =~= yt);
        assert(xt.to_multiset() == yt.to_multiset());
        assert forall|a: int, b: int|
            #![trigger xt[a], xt[b]]
            0 <= a < b < xt.len() implies lex_le(xt[a].job_id, xt[b].job_id) && xt[a].job_id
            != xt[b].job_id by {
            assert(xt[a] == x[a + 1] && xt[b] == x[b + 1]);
        }
        assert forall|a: int, b: int|
            #![trigger yt[a], yt[b]]
            0 <= a < b < yt.len() implies lex_le(yt[a].job_id, yt[b].job_id) by {
            assert(yt[a] == y[a + 1] && yt[b] == y[b + 1]);
        }
        lemma_sorted_registry_unique(xt, yt);
        assert forall|k: int| 0 <= k < x.len() implies x[k] == y[k] by {
            if k > 0 {
                assert(x[k] == xt[k - 1] && y[k] == yt[k - 1]);
            }
        }
        assert(x =~= y);
    }
}

/// The merged, unsorted registry of one poll: the historical records with
/// every live record folded in.
pub open spec fn spec_merged(text: Seq<char>, recs: Seq<LiveView>) -> Seq<JobView> {
    spec_apply_all(spec_parse_history(text), recs)
}

/// One poll: parses the historical listing, folds in the live records,
/// and sorts ascending by job id; yields nothing when the merge is empty,
/// so an empty poll never replaces the registry.
pub fn refresh_job_list(history_text: &str, live: Vec<LiveJob>) -> (r: Option<Vec<SlurmJob>>)
    ensures
        (match r {
            Some(v) => {
                &&& spec_merged(history_text@, live.deep_view()).len() > 0
                &&& v.deep_view().to_multiset() == spec_merged(
                    history_text@,
                    live.deep_view(),
                ).to_multiset()
                &&& jobs_sorted(v.deep_view())
                &&& ids_unique(v.deep_view())
            },
            None => spec_merged(history_text@, live.deep_view()).len() == 0,
        }),
{
    broadcast use vstd::seq_lib::group_to_multiset_ensures;

    let ghost lv = live.deep_view();
    let mut jobs = parse_history(history_text);
    apply_all(&mut jobs, live);
    proof {
        assert(jobs.deep_view() == spec_merged(history_text@, lv));
    }
    let sorted = sort_jobs(jobs);
    proof {
        lemma_merged_ids_unique(history_text@, lv);
        lemma_permutation_keeps_ids_unique(spec_merged(history_text@, lv), sorted.deep_view());
        assert(sorted.deep_view().to_multiset().len() == sorted.deep_view().len());
        assert(spec_merged(history_text@, lv).to_multiset().len() == spec_merged(
            history_text@,
            lv,
        ).len());
        assert(sorted.deep_view().len() == sorted@.len());
    }
    if sorted.len() == 0 {
        None
    } else {
        Some(sorted)
    }
}

} // verus!
