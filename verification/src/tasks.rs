//! The decisions of the background worker: whether a job runs at all, and
//! what it reports (and cleans up) once its work is done, depending on
//! cancellation and on whether the work succeeded.
use vstd::prelude::*;

verus! {

/// The identity of an export task.
#[derive(Debug, Clone, Copy, PartialEq, Eq, Hash, Structural)]
pub struct TaskId(u64);

impl TaskId {
    /// The number carried by this identity.
    pub closed spec fn number(self) -> u64 {
        self.0
    }

    /// The identity carrying `number`.
    pub fn from_number(number: u64) -> (id: TaskId)
        ensures
            id.number() == number,
    {
        TaskId(number)
    }

    /// The number carried by this identity.
    pub fn get(self) -> (number: u64)
        ensures
            number == self.number(),
    {
        self.0
    }
}

/// The identity of the next export task after `last` were handed out, and
/// the new count; the count saturates at its largest value.
pub fn next_task_id(last: u64) -> (result: (u64, TaskId))
    ensures
        result.0 == if last == u64::MAX {
            last
        } else {
            (last + 1) as u64
        },
        result.1.number() == result.0,
{
    let next = last.saturating_add(1);
    (next, TaskId(next))
}

/// The kinds of work the worker does.
#[derive(Debug, Clone, Copy, PartialEq, Eq, Structural)]
pub enum JobKind {
    Load,
    Preview,
    Export,
}

/// What the worker tells the interface.
#[derive(Debug, Clone, Copy, PartialEq, Eq, Structural)]
pub enum Report {
    /// A load finished, with its result.
    Loaded,
    /// A preview finished, with its result.
    PreviewReady,
    /// A preview was cancelled.
    PreviewCancelled,
    /// An export started (progress 0).
    ExportStarted,
    /// An export's work is complete (progress 1).
    ExportCompleted,
    /// An export finished, with its result.
    ExportFinished,
    /// An export was cancelled.
    ExportCancelled,
}

/// What happens before a job's work.
#[derive(Debug, Clone, Copy, PartialEq, Eq, Structural)]
pub enum BeforeWork {
    /// The job was cancelled: send this report instead of working.
    Skip(Report),
    /// Do the work, sending the start report first when `announce`.
    Run { announce: bool },
}

/// The decision before a job's work, given whether it was cancelled:
/// cancelled previews and exports are not run; loads cannot be cancelled;
/// an export announces its start.
pub open spec fn plan_before_spec(kind: JobKind, cancelled: bool) -> BeforeWork {
    match kind {
        JobKind::Load => BeforeWork::Run { announce: false },
        JobKind::Preview => if cancelled {
            BeforeWork::Skip(Report::PreviewCancelled)
        } else {
            BeforeWork::Run { announce: false }
        },
        JobKind::Export => if cancelled {
            BeforeWork::Skip(Report::ExportCancelled)
        } else {
            BeforeWork::Run { announce: true }
        },
    }
}

/// Whether the written export is deleted after the work: only when the
/// export succeeded but was cancelled meanwhile.
pub open spec fn remove_output_spec(kind: JobKind, cancelled: bool, succeeded: bool) -> bool {
    kind == JobKind::Export && cancelled && succeeded
}

/// The reports sent after the work, in order.
pub open spec fn reports_after_spec(kind: JobKind, cancelled: bool, succeeded: bool) -> Seq<Report> {
    match kind {
        JobKind::Load => seq![Report::Loaded],
        JobKind::Preview => if cancelled {
            seq![Report::PreviewCancelled]
        } else {
            seq![Report::PreviewReady]
        },
        JobKind::Export => if cancelled {
            seq![Report::ExportCancelled]
        } else if succeeded {
            seq![Report::ExportCompleted, Report::ExportFinished]
        } else {
            seq![Report::ExportFinished]
        },
    }
}

/// Decides what happens before a job's work.
pub fn plan_before(kind: JobKind, cancelled: bool) -> (plan: BeforeWork)
    ensures
        plan == plan_before_spec(kind, cancelled),
        !cancelled ==> plan is Run,
        !cancelled ==> (plan matches BeforeWork::Run { announce } && announce == (kind == JobKind::Export)),
        cancelled && kind == JobKind::Preview ==> plan == BeforeWork::Skip(Report::PreviewCancelled),
        cancelled && kind == JobKind::Export ==> plan == BeforeWork::Skip(Report::ExportCancelled),
        kind == JobKind::Load ==> plan is Run,
{
    match kind {
        JobKind::Load => BeforeWork::Run { announce: false },
        JobKind::Preview => if cancelled {
            BeforeWork::Skip(Report::PreviewCancelled)
        } else {
            BeforeWork::Run { announce: false }
        },
        JobKind::Export => if cancelled {
            BeforeWork::Skip(Report::ExportCancelled)
        } else {
            BeforeWork::Run { announce: true }
        },
    }
}

/// What happens after a job's work.
pub struct AfterWork {
    /// Delete the file the export wrote.
    pub remove_output: bool,
    /// Send these reports in order, stopping at the first that cannot be
    /// delivered.
    pub reports: Vec<Report>,
}

/// Decides what happens after a job's work, given whether the job was
/// cancelled meanwhile and whether the work succeeded.
pub fn plan_after(kind: JobKind, cancelled: bool, succeeded: bool) -> (plan: AfterWork)
    ensures
        plan.remove_output == remove_output_spec(kind, cancelled, succeeded),
        plan.reports@ == reports_after_spec(kind, cancelled, succeeded),
{
    let mut reports: Vec<Report> = Vec::new();
    let mut remove_output = false;
    match kind {
        JobKind::Load => {
            reports.push(Report::Loaded);
        },
        JobKind::Preview => {
            if cancelled {
                reports.push(Report::PreviewCancelled);
            } else {
                reports.push(Report::PreviewReady);
            }
        },
        JobKind::Export => {
            if cancelled {
                remove_output = succeeded;
                reports.push(Report::ExportCancelled);
            } else if succeeded {
                reports.push(Report::ExportCompleted);
                reports.push(Report::ExportFinished);
            } else {
                reports.push(Report::ExportFinished);
            }
        },
    }
    proof {
        assert(reports@ =~= reports_after_spec(kind, cancelled, succeeded));
    }
    AfterWork { remove_output, reports }
}

/// A job found cancelled before its work is never run, and a job found
/// cancelled after its work never reports a result as ready or finished;
/// an export's file is kept exactly when it is reported finished with
/// success.
pub proof fn lemma_cancellation_is_honoured(kind: JobKind, succeeded: bool)
    ensures
        kind != JobKind::Load ==> plan_before_spec(kind, true) is Skip,
        !reports_after_spec(kind, true, succeeded).contains(Report::PreviewReady),
        !reports_after_spec(kind, true, succeeded).contains(Report::ExportFinished),
        !reports_after_spec(kind, true, succeeded).contains(Report::ExportCompleted),
        kind == JobKind::Export && succeeded ==> (remove_output_spec(kind, true, succeeded)
            && !remove_output_spec(kind, false, succeeded)),
{
    let r = reports_after_spec(kind, true, succeeded);
    assert(r.len() == 1);
    assert(r[0] != Report::PreviewReady && r[0] != Report::ExportFinished && r[0]
        != Report::ExportCompleted);
}

/// A job that is not cancelled always runs, and only an export announces
/// its start; loads run even when cancelled; a cancelled preview or export
/// is skipped with its own cancellation report.
pub proof fn lemma_uncancelled_jobs_run(kind: JobKind)
    ensures
        plan_before_spec(kind, false) is Run,
        plan_before_spec(kind, false) matches BeforeWork::Run { announce } && announce == (kind
            == JobKind::Export),
        plan_before_spec(JobKind::Load, true) is Run,
        plan_before_spec(JobKind::Preview, true) == BeforeWork::Skip(Report::PreviewCancelled),
        plan_before_spec(JobKind::Export, true) == BeforeWork::Skip(Report::ExportCancelled),
{
}

/// Every job that runs to completion without cancellation ends with exactly
/// one result report, and a successful export reports its completion before
/// its result.
pub proof fn lemma_one_result_per_job(kind: JobKind, succeeded: bool)
    ensures
        reports_after_spec(kind, false, succeeded).last() == match kind {
            JobKind::Load => Report::Loaded,
            JobKind::Preview => Report::PreviewReady,
            JobKind::Export => Report::ExportFinished,
        },
        kind == JobKind::Export && succeeded ==> reports_after_spec(kind, false, succeeded)
            == seq![Report::ExportCompleted, Report::ExportFinished],
{
}

} // verus!
