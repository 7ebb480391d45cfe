//! The orchestrator: one owner of all mutable dashboard state. Messages
//! from the job poller, the file tailer, the job controller and the input
//! source are folded in one at a time; every mutation re-derives the file
//! to tail from the now-selected job and forwards a target change to the
//! tailer only when the path differs.
//!
//! Navigation policy: every navigable list clamps at its ends — no list
//! wraps around — and page steps move by ten rows. While a cancel or
//! requeue is pending, further control requests are rejected, but
//! navigation stays live; the completion message clears the pending flag
//! whether the action succeeded or failed.

use vstd::prelude::*;
use vstd::string::*;
use crate::file_watcher::{spec_error_message, spec_set_path, FileWatcherError, FileWatcherHandle};
use crate::slurm::{JobView, SlurmJob};
use crate::strutil::{spec_lines, split_lines, str_eq};

verus! {

/// Which pane the navigation keys act on.
#[derive(Debug, Clone, Copy, PartialEq, Eq, Structural)]
pub enum Focus {
    JobList,
    Output,
}

/// A key press, already resolved to its meaning for the dashboard.
#[derive(Debug, Clone, Copy, PartialEq, Eq, Structural)]
pub enum KeyInput {
    Cancel,
    Requeue,
    Up,
    Down,
    PageUp,
    PageDown,
    Top,
    Bottom,
    Filter,
    SwitchFocus,
    Other,
}

/// A mouse event, reduced to what the dashboard reacts to.
#[derive(Debug, Clone, Copy, PartialEq, Eq, Structural)]
pub enum MouseKind {
    ScrollUp,
    ScrollDown,
    Other,
}

/// One message into the orchestrator's single wait point.
pub enum AppMessage {
    /// A full registry snapshot, or nothing when the poll found no jobs.
    JobList(Option<Vec<SlurmJob>>),
    /// The tailed file's whole buffer, or the error shown in its place.
    OutputFile(Result<String, FileWatcherError>),
    Key(KeyInput),
    Mouse(MouseKind),
    /// The controller finished a cancel request.
    JobCancelled(Result<(), String>),
    /// The controller finished a requeue request.
    JobRequeued(Result<(), String>),
}

/// One request to the job controller.
pub enum JobControlMessage {
    CancelJob(String),
    RequeueJob(SlurmJob),
}

/// A list with a selection. The selection clamps at both ends and is unset
/// exactly while nothing can be selected.
#[derive(Debug)]
pub struct StatefulList<T> {
    pub state: Option<usize>,
    pub items: Vec<T>,
}

impl<T> StatefulList<T> {
    /// A list over `items` with nothing selected yet.
    pub fn with_items(items: Vec<T>) -> (r: StatefulList<T>)
        ensures
            r.items == items,
            r.state is None,
    {
        StatefulList { state: None, items }
    }

    /// Selects the first item; a selection needs an item.
    pub fn top(&mut self)
        ensures
            final(self).items == old(self).items,
            old(self).items.len() == 0 ==> final(self).state == old(self).state,
            old(self).items.len() > 0 ==> final(self).state == Some(0usize),
    {
        if self.items.len() > 0 {
            self.state = Some(0);
        }
    }

    /// Selects the last item.
    pub fn bottom(&mut self)
        ensures
            final(self).items == old(self).items,
            old(self).items.len() == 0 ==> final(self).state == old(self).state,
            old(self).items.len() > 0 ==> final(self).state == Some(
                (old(self).items.len() - 1) as usize,
            ),
    {
        let n = self.items.len();
        if n > 0 {
            self.state = Some(n - 1);
        }
    }

    /// Moves the selection down one item, stopping at the end.
    pub fn next(&mut self)
        ensures
            final(self).items == old(self).items,
            old(self).items.len() == 0 ==> final(self).state == old(self).state,
            old(self).items.len() > 0 ==> final(self).state == (match old(self).state {
                None => Some(0usize),
                Some(i) => if i + 1 < old(self).items.len() {
                    Some((i + 1) as usize)
                } else {
                    Some((old(self).items.len() - 1) as usize)
                },
            }),
    {
        let n = self.items.len();
        if n == 0 {
            return ;
        }
        let ns: usize = match self.state {
            None => 0,
            Some(i) => if i < n - 1 {
                i + 1
            } else {
                n - 1
            },
        };
        self.state = Some(ns);
    }

    /// Moves the selection up one item, stopping at the start.
    pub fn previous(&mut self)
        ensures
            final(self).items == old(self).items,
            old(self).items.len() == 0 ==> final(self).state == old(self).state,
            old(self).items.len() > 0 ==> final(self).state == (match old(self).state {
                None => Some(0usize),
                Some(i) => if i > 0 {
                    Some((i - 1) as usize)
                } else {
                    Some(0usize)
                },
            }),
    {
        let n = self.items.len();
        if n == 0 {
            return ;
        }
        let ns: usize = match self.state {
            None => 0,
            Some(i) => if i > 0 {
                i - 1
            } else {
                0
            },
        };
        self.state = Some(ns);
    }

    /// How many items the list holds.
    pub fn len(&self) -> (n: usize)
        ensures
            n == self.items.len(),
    {
        self.items.len()
    }
}

/// A table with a selected row; same selection policy as the list.
#[derive(Debug)]
pub struct StatefulTable<T> {
    pub state: Option<usize>,
    pub items: Vec<T>,
}

impl<T> Default for StatefulTable<T> {
    fn default() -> (r: Self)
        ensures
            r.items@ == Seq::<T>::empty(),
            r.state is None,
    {
        StatefulTable { state: None, items: Vec::new() }
    }
}

impl<T> StatefulTable<T> {
    /// A table over `items` with nothing selected yet.
    pub fn with_items(items: Vec<T>) -> (r: StatefulTable<T>)
        ensures
            r.items == items,
            r.state is None,
    {
        StatefulTable { state: None, items }
    }

    /// An empty table.
    pub fn new() -> (r: StatefulTable<T>)
        ensures
            r.items@ == Seq::<T>::empty(),
            r.state is None,
    {
        StatefulTable { state: None, items: Vec::new() }
    }

    /// Selects the first row.
    pub fn top(&mut self)
        ensures
            final(self).items == old(self).items,
            old(self).items.len() == 0 ==> final(self).state == old(self).state,
            old(self).items.len() > 0 ==> final(self).state == Some(0usize),
    {
        if self.items.len() > 0 {
            self.state = Some(0);
        }
    }

    /// Selects the last row.
    pub fn bottom(&mut self)
        ensures
            final(self).items == old(self).items,
            old(self).items.len() == 0 ==> final(self).state == old(self).state,
            old(self).items.len() > 0 ==> final(self).state == Some(
                (old(self).items.len() - 1) as usize,
            ),
    {
        let n = self.items.len();
        if n > 0 {
            self.state = Some(n - 1);
        }
    }

    /// Moves the selection down one row, stopping at the end.
    pub fn next(&mut self)
        ensures
            final(self).items == old(self).items,
            old(self).items.len() == 0 ==> final(self).state == old(self).state,
            old(self).items.len() > 0 ==> final(self).state == (match old(self).state {
                None => Some(0usize),
                Some(i) => if i + 1 < old(self).items.len() {
                    Some((i + 1) as usize)
                } else {
                    Some((old(self).items.len() - 1) as usize)
                },
            }),
    {
        let n = self.items.len();
        if n == 0 {
            return ;
        }
        let ns: usize = match self.state {
            None => 0,
            Some(i) => if i < n - 1 {
                i + 1
            } else {
                n - 1
            },
        };
        self.state = Some(ns);
    }

    /// Moves the selection up one row, stopping at the start.
    pub fn previous(&mut self)
        ensures
            final(self).items == old(self).items,
            old(self).items.len() == 0 ==> final(self).state == old(self).state,
            old(self).items.len() > 0 ==> final(self).state == (match old(self).state {
                None => Some(0usize),
                Some(i) => if i > 0 {
                    Some((i - 1) as usize)
                } else {
                    Some(0usize)
                },
            }),
    {
        let n = self.items.len();
        if n == 0 {
            return ;
        }
        let ns: usize = match self.state {
            None => 0,
            Some(i) => if i > 0 {
                i - 1
            } else {
                0
            },
        };
        self.state = Some(ns);
    }

    /// How many rows the table holds.
    pub fn len(&self) -> (n: usize)
        ensures
            n == self.items.len(),
    {
        self.items.len()
    }
}

/// The orchestrator's state. The channels and threads around it live
/// outside this crate; everything a renderer reads is here.
#[derive(Debug)]
pub struct App {
    pub running: bool,
    pub slurm_jobs: StatefulTable<SlurmJob>,
    pub selected_index: usize,
    pub job_output: StatefulTable<String>,
    pub focus: Focus,
    pub cancelling: bool,
    pub requeueing: bool,
    pub output_line_index: usize,
    pub running_only: bool,
    pub raw_slurm_output: Vec<SlurmJob>,
    pub file_watcher_handle: FileWatcherHandle,
}

/// The orchestrator's mathematical state.
#[verifier::ext_equal]
pub struct AppView {
    pub running: bool,
    pub raw: Seq<JobView>,
    pub jobs: Seq<JobView>,
    pub job_sel: Option<usize>,
    pub selected: usize,
    pub output: Seq<Seq<char>>,
    pub out_sel: Option<usize>,
    pub out_line: usize,
    pub focus: Focus,
    pub cancelling: bool,
    pub requeueing: bool,
    pub running_only: bool,
    pub watch_path: Option<Seq<char>>,
}

impl View for App {
    type V = AppView;

    open spec fn view(&self) -> AppView {
        AppView {
            running: self.running,
            raw: self.raw_slurm_output.deep_view(),
            jobs: self.slurm_jobs.items.deep_view(),
            job_sel: self.slurm_jobs.state,
            selected: self.selected_index,
            output: self.job_output.items.deep_view(),
            out_sel: self.job_output.state,
            out_line: self.output_line_index,
            focus: self.focus,
            cancelling: self.cancelling,
            requeueing: self.requeueing,
            running_only: self.running_only,
            watch_path: self.file_watcher_handle.file_path.deep_view(),
        }
    }
}

/// Selection well-formedness: each pane's selection sits inside its list
/// and is unset exactly while the list is empty; the table's selected row
/// and the remembered index agree.
pub open spec fn wf_view(a: AppView) -> bool {
    &&& (if a.jobs.len() == 0 {
        a.job_sel is None && a.selected == 0
    } else {
        a.job_sel == Some(a.selected) && (a.selected as int) < a.jobs.len()
    })
    &&& (if a.output.len() == 0 {
        a.out_sel is None && a.out_line == 0
    } else {
        a.out_sel == Some(a.out_line) && (a.out_line as int) < a.output.len()
    })
}

/// A record is visible under the running-only filter.
pub open spec fn is_running_state(j: JobView) -> bool {
    j.state == "R"@ || j.state == "PD"@
}

/// What the job table shows: the raw registry, restricted to running and
/// pending jobs while the filter is on, relative order kept.
pub open spec fn spec_visible(raw: Seq<JobView>, running_only: bool) -> Seq<JobView>
    decreases raw.len(),
{
    if !running_only {
        raw
    } else if raw.len() == 0 {
        Seq::empty()
    } else {
        let prev = spec_visible(raw.drop_last(), running_only);
        if is_running_state(raw.last()) {
            prev.push(raw.last())
        } else {
            prev
        }
    }
}

/// An index clamped into a list: unchanged while it fits, the last index
/// where it overshoots, zero for an empty list.
pub open spec fn spec_clamp(i: usize, len: int) -> usize {
    if len == 0 {
        0usize
    } else if (i as int) < len {
        i
    } else {
        (len - 1) as usize
    }
}

/// The selection that goes with a clamped index.
pub open spec fn spec_sel_state(len: int, i: usize) -> Option<usize> {
    if len == 0 {
        None
    } else {
        Some(i)
    }
}

/// Rebuilding the visible table from the raw registry: filter, then clamp
/// the selection.
pub open spec fn spec_build_table(a: AppView) -> AppView {
    let items = spec_visible(a.raw, a.running_only);
    let sel = spec_clamp(a.selected, items.len() as int);
    AppView { jobs: items, selected: sel, job_sel: spec_sel_state(items.len() as int, sel), ..a }
}

/// Replacing the output pane's lines: the scroll position clamps into the
/// new content.
pub open spec fn spec_output_update(a: AppView, lines: Seq<Seq<char>>) -> AppView {
    let sel = spec_clamp(a.out_line, lines.len() as int);
    AppView { output: lines, out_line: sel, out_sel: spec_sel_state(lines.len() as int, sel), ..a }
}

/// The job pane's selection moved to `i`; an empty list cannot be
/// navigated.
pub open spec fn spec_jobs_to(a: AppView, i: usize) -> AppView {
    if a.jobs.len() == 0 {
        a
    } else {
        AppView { selected: i, job_sel: Some(i), ..a }
    }
}

/// The output pane's scroll moved to `i`.
pub open spec fn spec_out_to(a: AppView, i: usize) -> AppView {
    if a.output.len() == 0 {
        a
    } else {
        AppView { out_line: i, out_sel: Some(i), ..a }
    }
}

pub open spec fn spec_prev_idx(i: usize) -> usize {
    if i > 0 {
        (i - 1) as usize
    } else {
        0usize
    }
}

pub open spec fn spec_next_idx(i: usize, len: int) -> usize {
    if (i as int) + 1 < len {
        (i + 1) as usize
    } else if len > 0 {
        (len - 1) as usize
    } else {
        0usize
    }
}

pub open spec fn spec_back_page(i: usize) -> usize {
    if i >= 10 {
        (i - 10) as usize
    } else {
        0usize
    }
}

pub open spec fn spec_forward_page(i: usize, len: int) -> usize {
    if (i as int) + 10 < len {
        (i + 10) as usize
    } else if len > 0 {
        (len - 1) as usize
    } else {
        0usize
    }
}

pub open spec fn spec_last_idx(len: int) -> usize {
    if len > 0 {
        (len - 1) as usize
    } else {
        0usize
    }
}

pub open spec fn spec_on_up(a: AppView) -> AppView {
    match a.focus {
        Focus::JobList => spec_jobs_to(a, spec_prev_idx(a.selected)),
        Focus::Output => spec_out_to(a, spec_prev_idx(a.out_line)),
    }
}

pub open spec fn spec_on_down(a: AppView) -> AppView {
    match a.focus {
        Focus::JobList => spec_jobs_to(a, spec_next_idx(a.selected, a.jobs.len() as int)),
        Focus::Output => spec_out_to(a, spec_next_idx(a.out_line, a.output.len() as int)),
    }
}

pub open spec fn spec_on_shift_up(a: AppView) -> AppView {
    match a.focus {
        Focus::JobList => spec_jobs_to(a, spec_back_page(a.selected)),
        Focus::Output => spec_out_to(a, spec_back_page(a.out_line)),
    }
}

pub open spec fn spec_on_shift_down(a: AppView) -> AppView {
    match a.focus {
        Focus::JobList => spec_jobs_to(a, spec_forward_page(a.selected, a.jobs.len() as int)),
        Focus::Output => spec_out_to(a, spec_forward_page(a.out_line, a.output.len() as int)),
    }
}

pub open spec fn spec_on_t(a: AppView) -> AppView {
    match a.focus {
        Focus::JobList => spec_jobs_to(a, 0usize),
        Focus::Output => spec_out_to(a, 0usize),
    }
}

pub open spec fn spec_on_b(a: AppView) -> AppView {
    match a.focus {
        Focus::JobList => spec_jobs_to(a, spec_last_idx(a.jobs.len() as int)),
        Focus::Output => spec_out_to(a, spec_last_idx(a.output.len() as int)),
    }
}

pub open spec fn spec_toggle_focus(a: AppView) -> AppView {
    match a.focus {
        Focus::JobList => (AppView { focus: Focus::Output, ..a }),
        Focus::Output => (AppView { focus: Focus::JobList, ..a }),
    }
}

pub open spec fn spec_on_f(a: AppView) -> AppView {
    spec_build_table(AppView { running_only: !a.running_only, ..a })
}

/// A control action is pending.
pub open spec fn spec_pending(a: AppView) -> bool {
    a.cancelling || a.requeueing
}

/// The state change one key causes. Control keys are rejected while an
/// action is pending, and need a selected job; navigation always acts.
pub open spec fn spec_on_key(a: AppView, k: KeyInput) -> AppView {
    match k {
        KeyInput::Cancel => if !spec_pending(a) && a.jobs.len() > 0 {
            AppView { cancelling: true, ..a }
        } else {
            a
        },
        KeyInput::Requeue => if !spec_pending(a) && a.jobs.len() > 0 {
            AppView { requeueing: true, ..a }
        } else {
            a
        },
        KeyInput::Up => spec_on_up(a),
        KeyInput::Down => spec_on_down(a),
        KeyInput::PageUp => spec_on_shift_up(a),
        KeyInput::PageDown => spec_on_shift_down(a),
        KeyInput::Top => spec_on_t(a),
        KeyInput::Bottom => spec_on_b(a),
        KeyInput::Filter => spec_on_f(a),
        KeyInput::SwitchFocus => spec_toggle_focus(a),
        KeyInput::Other => a,
    }
}

/// The control request one key dispatches: the flag says cancel (true) or
/// requeue (false), beside the record it concerns. Nothing is dispatched
/// while an action is pending or with nothing selected.
pub open spec fn spec_key_control(a: AppView, k: KeyInput) -> Option<(bool, JobView)> {
    if spec_pending(a) || a.jobs.len() == 0 {
        None
    } else {
        match k {
            KeyInput::Cancel => Some((true, a.jobs[a.selected as int])),
            KeyInput::Requeue => Some((false, a.jobs[a.selected as int])),
            _ => None,
        }
    }
}

/// The control request any message dispatches.
pub open spec fn spec_msg_control(a: AppView, msg: AppMessage) -> Option<(bool, JobView)> {
    match msg {
        AppMessage::Key(k) => spec_key_control(a, k),
        _ => None,
    }
}

/// The state change one message causes, before the tail target is
/// re-derived.
pub open spec fn spec_handle_state(a: AppView, msg: AppMessage) -> AppView {
    match msg {
        AppMessage::JobList(opt) => match opt {
            Some(v) => spec_build_table(AppView { raw: v.deep_view(), ..a }),
            None => a,
        },
        AppMessage::OutputFile(res) => match res {
            Ok(s) => spec_output_update(a, spec_lines(s@)),
            Err(e) => spec_output_update(a, seq![spec_error_message(e)]),
        },
        AppMessage::Mouse(m) => match m {
            MouseKind::ScrollUp => spec_on_up(a),
            MouseKind::ScrollDown => spec_on_down(a),
            MouseKind::Other => a,
        },
        AppMessage::Key(k) => spec_on_key(a, k),
        AppMessage::JobCancelled(_) => (AppView { cancelling: false, ..a }),
        AppMessage::JobRequeued(_) => (AppView { requeueing: false, ..a }),
    }
}

/// The file the dashboard should tail: the selected job's resolved stdout
/// path, or the scheduler's default output file in the job's working
/// directory; nothing while no job is selected.
pub open spec fn spec_derive_path(j: JobView) -> Seq<char> {
    match j.stdout {
        Some(s) => s,
        None => j.work_dir + "/slurm-"@ + j.job_id + ".out"@,
    }
}

pub open spec fn spec_watch_target(a: AppView) -> Option<Seq<char>> {
    if a.jobs.len() == 0 {
        None
    } else {
        Some(spec_derive_path(a.jobs[a.selected as int]))
    }
}

/// One full message step: the state mutation completes first, then the
/// tail target is derived from the post-mutation selection and recorded.
pub open spec fn spec_handle(a: AppView, msg: AppMessage) -> AppView {
    let mid = spec_handle_state(a, msg);
    AppView { watch_path: spec_set_path(mid.watch_path, spec_watch_target(mid)).0, ..mid }
}

/// What the caller must do after one message step: forward a control
/// request, and re-target the tailer when the derived path changed.
pub struct HandleEffects {
    pub control: Option<JobControlMessage>,
    pub watch: Option<Option<String>>,
}

impl App {
    /// A fresh dashboard: empty registry, job list focused, nothing
    /// pending, no tail target.
    pub fn new(running_only: bool) -> (a: App)
        ensures
            (a@ == AppView {
                running: true,
                raw: Seq::<JobView>::empty(),
                jobs: Seq::<JobView>::empty(),
                job_sel: None,
                selected: 0usize,
                output: Seq::<Seq<char>>::empty(),
                out_sel: None,
                out_line: 0usize,
                focus: Focus::JobList,
                cancelling: false,
                requeueing: false,
                running_only: running_only,
                watch_path: None,
            }),
            wf_view(a@),
    {
        let a = App {
            running: true,
            slurm_jobs: StatefulTable::new(),
            selected_index: 0,
            job_output: StatefulTable::new(),
            focus: Focus::JobList,
            cancelling: false,
            requeueing: false,
            output_line_index: 0,
            running_only,
            raw_slurm_output: Vec::new(),
            file_watcher_handle: FileWatcherHandle::new(),
        };
        proof {
            assert(a@ =~~= (AppView {
                running: true,
                raw: Seq::<JobView>::empty(),
                jobs: Seq::<JobView>::empty(),
                job_sel: None,
                selected: 0usize,
                output: Seq::<Seq<char>>::empty(),
                out_sel: None,
                out_line: 0usize,
                focus: Focus::JobList,
                cancelling: false,
                requeueing: false,
                running_only: running_only,
                watch_path: None,
            }));
        }
        a
    }

    /// Nothing happens on a timer tick; polling lives with the workers.
    pub fn tick(&self) {
    }

    /// Rebuilds the visible job table from the raw registry and clamps
    /// the selection into it.
    fn build_job_table(&mut self)
        requires
            wf_view(old(self)@),
        ensures
            final(self)@ == spec_build_table(old(self)@),
            wf_view(final(self)@),
    {
        let ghost raw0 = self.raw_slurm_output.deep_view();
        let ghost ro = self.running_only;
        let mut items: Vec<SlurmJob> = Vec::new();
        let n = self.raw_slurm_output.len();
        proof {
            assert(raw0.len() == self.raw_slurm_output@.len());
            assert(raw0.take(0) =~= Seq::<JobView>::empty());
            assert(items.deep_view() =~~= spec_visible(raw0.take(0), ro));
        }
        let mut i: usize = 0;
        while i < n
            invariant
                i <= n,
                n == self.raw_slurm_output.len(),
                self.raw_slurm_output.deep_view() == raw0,
                raw0.len() == n,
                ro == self.running_only,
                items.deep_view() == spec_visible(raw0.take(i as int), ro),
            decreases n - i,
        {
            proof {
                assert(raw0[i as int] == self.raw_slurm_output@[i as int]@);
                assert(raw0.take(i + 1).drop_last() =~= raw0.take(i as int));
                assert(raw0.take(i + 1).last() == raw0[i as int]);
            }
            let keep = if self.running_only {
                str_eq(self.raw_slurm_output[i].state.as_str(), "R") || str_eq(
                    self.raw_slurm_output[i].state.as_str(),
                    "PD",
                )
            } else {
                true
            };
            if keep {
                let c = self.raw_slurm_output[i].clone();
                let ghost prev = items.deep_view();
                let ghost cv = c@;
                items.push(c);
                proof {
                    assert(items.deep_view() =~~= prev.push(cv));
                }
            }
            proof {
                assert(items.deep_view() =~~= spec_visible(raw0.take(i + 1), ro));
            }
            i += 1;
        }
        proof {
            assert(raw0.take(n as int) =~= raw0);
        }
        let len = items.len();
        proof {
            assert(items.deep_view().len() == items@.len());
        }
        let sel: usize = if len == 0 {
            0
        } else if self.selected_index < len {
            self.selected_index
        } else {
            len - 1
        };
        self.selected_index = sel;
        self.slurm_jobs = StatefulTable {
            state: if len == 0 {
                None
            } else {
                Some(sel)
            },
            items,
        };
        proof {
            assert(self@ =~~= spec_build_table(old(self)@));
        }
    }

    /// The file to tail for the selected job: its resolved stdout path,
    /// or the scheduler's default output file in its working directory.
    pub fn get_output_file_path(&self) -> (r: Option<String>)
        requires
            wf_view(self@),
        ensures
            r.deep_view() == spec_watch_target(self@),
    {
        if self.slurm_jobs.items.len() == 0 {
            return None;
        }
        proof {
            assert(self.slurm_jobs.items.deep_view()[self.selected_index as int]
                == self.slurm_jobs.items@[self.selected_index as int]@);
        }
        let job = &self.slurm_jobs.items[self.selected_index];
        match &job.stdout {
            Some(s) => Some(s.clone()),
            None => {
                let mut p = job.work_dir.clone();
                p.append("/slurm-");
                p.append(job.job_id.as_str());
                p.append(".out");
                Some(p)
            },
        }
    }

    /// Moves the focused pane's selection up one row.
    pub fn on_up(&mut self)
        requires
            wf_view(old(self)@),
        ensures
            final(self)@ == spec_on_up(old(self)@),
            wf_view(final(self)@),
    {
        match self.focus {
            Focus::JobList => {
                if self.slurm_jobs.items.len() > 0 {
                    let i: usize = if self.selected_index > 0 {
                        self.selected_index - 1
                    } else {
                        0
                    };
                    self.selected_index = i;
                    self.slurm_jobs.state = Some(i);
                }
            },
            Focus::Output => {
                if self.job_output.items.len() > 0 {
                    let i: usize = if self.output_line_index > 0 {
                        self.output_line_index - 1
                    } else {
                        0
                    };
                    self.output_line_index = i;
                    self.job_output.state = Some(i);
                }
            },
        }
        proof {
            assert(self@ =~~= spec_on_up(old(self)@));
        }
    }

    /// Moves the focused pane's selection down one row.
    pub fn on_down(&mut self)
        requires
            wf_view(old(self)@),
        ensures
            final(self)@ == spec_on_down(old(self)@),
            wf_view(final(self)@),
    {
        match self.focus {
            Focus::JobList => {
                let n = self.slurm_jobs.items.len();
                if n > 0 {
                    let i: usize = if self.selected_index + 1 < n {
                        self.selected_index + 1
                    } else {
                        n - 1
                    };
                    self.selected_index = i;
                    self.slurm_jobs.state = Some(i);
                }
            },
            Focus::Output => {
                let n = self.job_output.items.len();
                if n > 0 {
                    let i: usize = if self.output_line_index + 1 < n {
                        self.output_line_index + 1
                    } else {
                        n - 1
                    };
                    self.output_line_index = i;
                    self.job_output.state = Some(i);
                }
            },
        }
        proof {
            assert(self@ =~~= spec_on_down(old(self)@));
        }
    }

    /// Moves the focused pane's selection up one page.
    pub fn on_shift_up(&mut self)
        requires
            wf_view(old(self)@),
        ensures
            final(self)@ == spec_on_shift_up(old(self)@),
            wf_view(final(self)@),
    {
        match self.focus {
            Focus::JobList => {
                if self.slurm_jobs.items.len() > 0 {
                    let i: usize = if self.selected_index >= 10 {
                        self.selected_index - 10
                    } else {
                        0
                    };
                    self.selected_index = i;
                    self.slurm_jobs.state = Some(i);
                }
            },
            Focus::Output => {
                if self.job_output.items.len() > 0 {
                    let i: usize = if self.output_line_index >= 10 {
                        self.output_line_index - 10
                    } else {
                        0
                    };
                    self.output_line_index = i;
                    self.job_output.state = Some(i);
                }
            },
        }
        proof {
            assert(self@ =~~= spec_on_shift_up(old(self)@));
        }
    }

    /// Moves the focused pane's selection down one page.
    pub fn on_shift_down(&mut self)
        requires
            wf_view(old(self)@),
        ensures
            final(self)@ == spec_on_shift_down(old(self)@),
            wf_view(final(self)@),
    {
        match self.focus {
            Focus::JobList => {
                let n = self.slurm_jobs.items.len();
                if n > 0 {
                    let i: usize = if self.selected_index < n && n - self.selected_index > 10 {
                        self.selected_index + 10
                    } else {
                        n - 1
                    };
                    self.selected_index = i;
                    self.slurm_jobs.state = Some(i);
                }
            },
            Focus::Output => {
                let n = self.job_output.items.len();
                if n > 0 {
                    let i: usize = if self.output_line_index < n && n - self.output_line_index
                        > 10 {
                        self.output_line_index + 10
                    } else {
                        n - 1
                    };
                    self.output_line_index = i;
                    self.job_output.state = Some(i);
                }
            },
        }
        proof {
            assert(self@ =~~= spec_on_shift_down(old(self)@));
        }
    }

    /// Jumps the focused pane's selection to the first row.
    pub fn on_t(&mut self)
        requires
            wf_view(old(self)@),
        ensures
            final(self)@ == spec_on_t(old(self)@),
            wf_view(final(self)@),
    {
        match self.focus {
            Focus::JobList => {
                if self.slurm_jobs.items.len() > 0 {
                    self.selected_index = 0;
                    self.slurm_jobs.state = Some(0);
                }
            },
            Focus::Output => {
                if self.job_output.items.len() > 0 {
                    self.output_line_index = 0;
                    self.job_output.state = Some(0);
                }
            },
        }
        proof {
            assert(self@ =~~= spec_on_t(old(self)@));
        }
    }

    /// Jumps the focused pane's selection to the last row.
    pub fn on_b(&mut self)
        requires
            wf_view(old(self)@),
        ensures
            final(self)@ == spec_on_b(old(self)@),
            wf_view(final(self)@),
    {
        match self.focus {
            Focus::JobList => {
                let n = self.slurm_jobs.items.len();
                if n > 0 {
                    self.selected_index = n - 1;
                    self.slurm_jobs.state = Some(n - 1);
                }
            },
            Focus::Output => {
                let n = self.job_output.items.len();
                if n > 0 {
                    self.output_line_index = n - 1;
                    self.job_output.state = Some(n - 1);
                }
            },
        }
        proof {
            assert(self@ =~~= spec_on_b(old(self)@));
        }
    }

    /// Switches which pane the navigation keys act on.
    pub fn toggle_focus(&mut self)
        requires
            wf_view(old(self)@),
        ensures
            final(self)@ == spec_toggle_focus(old(self)@),
            wf_view(final(self)@),
    {
        match self.focus {
            Focus::JobList => {
                self.focus = Focus::Output;
            },
            Focus::Output => {
                self.focus = Focus::JobList;
            },
        }
        proof {
            assert(self@ =~~= spec_toggle_focus(old(self)@));
        }
    }

    /// Toggles the running-only filter and rebuilds the visible table.
    pub fn on_f(&mut self)
        requires
            wf_view(old(self)@),
        ensures
            final(self)@ == spec_on_f(old(self)@),
            wf_view(final(self)@),
    {
        self.running_only = !self.running_only;
        self.build_job_table();
        proof {
            assert(self@ =~~= spec_on_f(old(self)@));
        }
    }

    /// Folds one message into the state, then re-derives the tail target
    /// from the post-mutation selection. The returned effects name the
    /// control request to dispatch, if any, and the tailer's new target
    /// where the derived path changed.
    #[verifier::rlimit(100)]
    pub fn handle(&mut self, msg: AppMessage) -> (eff: HandleEffects)
        requires
            wf_view(old(self)@),
        ensures
            final(self)@ == spec_handle(old(self)@, msg),
            wf_view(final(self)@),
            (match spec_msg_control(old(self)@, msg) {
                Some((kind, j)) => {
                    if kind {
                        eff.control matches Some(JobControlMessage::CancelJob(id)) && id@
                            == j.job_id
                    } else {
                        eff.control matches Some(JobControlMessage::RequeueJob(rj)) && rj@ == j
                    }
                },
                None => eff.control is None,
            }),
            ({
                let mid = spec_handle_state(old(self)@, msg);
                let tgt = spec_watch_target(mid);
                &&& (mid.watch_path == tgt ==> eff.watch is None)
                &&& (mid.watch_path != tgt ==> (eff.watch matches Some(p) && p.deep_view()
                    == tgt))
            }),
    {
        let mut control: Option<JobControlMessage> = None;
        match msg {
            AppMessage::JobList(job_list) => {
                match job_list {
                    Some(list) => {
                        self.raw_slurm_output = list;
                        self.build_job_table();
                    },
                    None => {},
                }
            },
            AppMessage::OutputFile(output_file) => {
                let lines = match output_file {
                    Ok(contents) => split_lines(contents.as_str()),
                    Err(e) => {
                        let mut v: Vec<String> = Vec::new();
                        v.push(e.message());
                        proof {
                            assert(v.deep_view() =~~= seq![spec_error_message(e)]);
                        }
                        v
                    },
                };
                let n = lines.len();
                proof {
                    assert(lines.deep_view().len() == lines@.len());
                }
                let sel: usize = if n == 0 {
                    0
                } else if self.output_line_index < n {
                    self.output_line_index
                } else {
                    n - 1
                };
                self.output_line_index = sel;
                self.job_output = StatefulTable {
                    state: if n == 0 {
                        None
                    } else {
                        Some(sel)
                    },
                    items: lines,
                };
            },
            AppMessage::Mouse(mouse_event) => {
                match mouse_event {
                    MouseKind::ScrollUp => {
                        self.on_up();
                    },
                    MouseKind::ScrollDown => {
                        self.on_down();
                    },
                    MouseKind::Other => {},
                }
            },
            AppMessage::Key(key) => {
                match key {
                    KeyInput::Cancel => {
                        if !self.cancelling && !self.requeueing && self.slurm_jobs.items.len()
                            > 0 {
                            proof {
                                assert(self.slurm_jobs.items.deep_view()[self.selected_index as int]
                                    == self.slurm_jobs.items@[self.selected_index as int]@);
                            }
                            self.cancelling = true;
                            control = Some(
                                JobControlMessage::CancelJob(
                                    self.slurm_jobs.items[self.selected_index].job_id.clone(),
                                ),
                            );
                        }
                    },
                    KeyInput::Requeue => {
                        if !self.cancelling && !self.requeueing && self.slurm_jobs.items.len()
                            > 0 {
                            proof {
                                assert(self.slurm_jobs.items.deep_view()[self.selected_index as int]
                                    == self.slurm_jobs.items@[self.selected_index as int]@);
                            }
                            self.requeueing = true;
                            control = Some(
                                JobControlMessage::RequeueJob(
                                    self.slurm_jobs.items[self.selected_index].clone(),
                                ),
                            );
                        }
                    },
                    KeyInput::Up => {
                        self.on_up();
                    },
                    KeyInput::Down => {
                        self.on_down();
                    },
                    KeyInput::PageUp => {
                        self.on_shift_up();
                    },
                    KeyInput::PageDown => {
                        self.on_shift_down();
                    },
                    KeyInput::Top => {
                        self.on_t();
                    },
                    KeyInput::Bottom => {
                        self.on_b();
                    },
                    KeyInput::Filter => {
                        self.on_f();
                    },
                    KeyInput::SwitchFocus => {
                        self.toggle_focus();
                    },
                    KeyInput::Other => {},
                }
            },
            AppMessage::JobCancelled(_) => {
                self.cancelling = false;
            },
            AppMessage::JobRequeued(_) => {
                self.requeueing = false;
            },
        }
        proof {
            assert(self@ =~~= spec_handle_state(old(self)@, msg));
        }
        let target = self.get_output_file_path();
        let target_again: Option<String> = match &target {
            Some(s) => Some(s.clone()),
            None => None,
        };
        proof {
            assert(target_again.deep_view() == target.deep_view());
        }
        let send = self.file_watcher_handle.set_file_path(target);
        let watch: Option<Option<String>> = if send {
            Some(target_again)
        } else {
            None
        };
        proof {
            assert(self@ =~~= spec_handle(old(self)@, msg));
        }
        HandleEffects { control, watch }
    }
}

/// The running-only restriction is exactly a filter of the raw registry:
/// it keeps precisely the running and pending records, in their relative
/// order.
pub proof fn lemma_visible_is_filter(raw: Seq<JobView>)
    ensures
        spec_visible(raw, true) == raw.filter(|j: JobView| is_running_state(j)),
    decreases raw.len(),
{
    reveal(Seq::filter);
    if raw.len() == 0 {
        assert(spec_visible(raw, true) =~= raw.filter(|j: JobView| is_running_state(j)));
    } else {
        lemma_visible_is_filter(raw.drop_last());
    }
}

/// Whatever message arrives, a well-formed state stays well-formed: after
/// any registry update — and so, by induction, after any sequence of them
/// — the selected index sits in the visible list when it is non-empty and
/// is unset when it is empty.
#[verifier::rlimit(100)]
pub proof fn lemma_handle_preserves_selection(a: AppView, msg: AppMessage)
    requires
        wf_view(a),
    ensures
        wf_view(spec_handle(a, msg)),
        spec_handle(a, msg).jobs.len() > 0 ==> spec_handle(a, msg).job_sel == Some(
            spec_handle(a, msg).selected,
        ) && (spec_handle(a, msg).selected as int) < spec_handle(a, msg).jobs.len(),
        spec_handle(a, msg).jobs.len() == 0 ==> spec_handle(a, msg).job_sel is None,
{
    let mid = spec_handle_state(a, msg);
    match msg {
        AppMessage::JobList(opt) => {
            assert(wf_view(mid));
        },
        AppMessage::OutputFile(res) => {
            assert(wf_view(mid));
        },
        AppMessage::Mouse(m) => {
            assert(wf_view(mid));
        },
        AppMessage::Key(k) => {
            assert(wf_view(mid));
        },
        AppMessage::JobCancelled(_) => {
            assert(wf_view(mid));
        },
        AppMessage::JobRequeued(_) => {
            assert(wf_view(mid));
        },
    }
}

/// The state after a whole run of messages, folded in arrival order.
pub open spec fn spec_run(a: AppView, msgs: Seq<AppMessage>) -> AppView
    decreases msgs.len(),
{
    if msgs.len() == 0 {
        a
    } else {
        spec_run(spec_handle(a, msgs[0]), msgs.drop_first())
    }
}

/// For any sequence of messages — registry updates included — the
/// selection invariant holds of the state they leave behind: the selected
/// index sits in [0, len-1] while the list is non-empty and is unset while
/// it is empty.
pub proof fn lemma_run_preserves_selection(a: AppView, msgs: Seq<AppMessage>)
    requires
        wf_view(a),
    ensures
        wf_view(spec_run(a, msgs)),
        spec_run(a, msgs).jobs.len() > 0 ==> spec_run(a, msgs).job_sel == Some(
            spec_run(a, msgs).selected,
        ) && (spec_run(a, msgs).selected as int) < spec_run(a, msgs).jobs.len(),
        spec_run(a, msgs).jobs.len() == 0 ==> spec_run(a, msgs).job_sel is None,
    decreases msgs.len(),
{
    if msgs.len() == 0 {
    } else {
        lemma_handle_preserves_selection(a, msgs[0]);
        lemma_run_preserves_selection(spec_handle(a, msgs[0]), msgs.drop_first());
    }
}

/// While an action is pending, a cancel or requeue key neither changes
/// the state nor dispatches a request; it is rejected until a completion
/// message clears the pending flag.
pub proof fn lemma_pending_blocks_control(a: AppView, k: KeyInput)
    requires
        spec_pending(a),
    ensures
        (k matches KeyInput::Cancel || k matches KeyInput::Requeue) ==> spec_on_key(a, k) == a,
        spec_key_control(a, k) is None,
{
}

/// A completion message clears the matching pending flag, whether the
/// action succeeded or failed; a new request is accepted afterwards.
pub proof fn lemma_completion_clears_pending(a: AppView, r: Result<(), String>)
    ensures
        !spec_handle_state(a, AppMessage::JobCancelled(r)).cancelling,
        !spec_handle_state(a, AppMessage::JobRequeued(r)).requeueing,
        a.requeueing == spec_handle_state(a, AppMessage::JobCancelled(r)).requeueing,
        a.cancelling == spec_handle_state(a, AppMessage::JobRequeued(r)).cancelling,
{
}

} // verus!
