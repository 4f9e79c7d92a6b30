//! How a page of the queue follows the worker's reports: its status, its
//! error text, and whether a fresh preview is asked for.
use vstd::prelude::*;

use crate::model::QueueStatus;

verus! {

/// A report from the worker about one page, as the interface receives it.
#[derive(Debug, Clone, Copy, PartialEq, Eq, Structural)]
pub enum PageEvent {
    /// Loading the page finished.
    LoadFinished { succeeded: bool },
    /// A preview of the page's edit `revision` finished.
    PreviewFinished { revision: u64, succeeded: bool },
    /// A preview of the page's edit `revision` was cancelled.
    PreviewCancelled { revision: u64 },
    /// An export of the page made progress.
    ExportProgress,
    /// An export of the page finished.
    ExportFinished { succeeded: bool },
    /// An export of the page was cancelled.
    ExportCancelled,
}

/// What becomes of a page's error text.
#[derive(Debug, Clone, Copy, PartialEq, Eq, Structural)]
pub enum ErrorUpdate {
    /// The error text stays as it is.
    Keep,
    /// The error text is cleared.
    Clear,
    /// The error text becomes the report's error.
    Record,
}

/// The change a report makes to a page.
#[derive(Debug, Clone, Copy, PartialEq, Eq, Structural)]
pub struct PageUpdate {
    /// The page's status afterwards.
    pub status: QueueStatus,
    /// What becomes of the page's error text.
    pub error: ErrorUpdate,
    /// Whether a preview of the page's current edit is asked for.
    pub request_preview: bool,
}

/// The change `event` makes to a page whose status is `current` and whose
/// edit is at `revision`. A preview result for another revision is stale and
/// changes nothing; a cancelled preview only returns the page to ready when
/// it was for the current revision.
pub open spec fn page_update_spec(current: QueueStatus, revision: u64, event: PageEvent) -> PageUpdate {
    let unchanged = PageUpdate { status: current, error: ErrorUpdate::Keep, request_preview: false };
    match event {
        PageEvent::LoadFinished { succeeded } => if succeeded {
            PageUpdate { status: QueueStatus::Ready, error: ErrorUpdate::Clear, request_preview: true }
        } else {
            PageUpdate { status: QueueStatus::Failed, error: ErrorUpdate::Record, request_preview: false }
        },
        PageEvent::PreviewFinished { revision: r, succeeded } => if r != revision {
            unchanged
        } else if succeeded {
            PageUpdate { status: QueueStatus::Ready, error: ErrorUpdate::Clear, request_preview: false }
        } else {
            PageUpdate { status: QueueStatus::Failed, error: ErrorUpdate::Record, request_preview: false }
        },
        PageEvent::PreviewCancelled { revision: r } => if r == revision {
            PageUpdate { status: QueueStatus::Ready, ..unchanged }
        } else {
            unchanged
        },
        PageEvent::ExportProgress => PageUpdate { status: QueueStatus::Processing, ..unchanged },
        PageEvent::ExportFinished { succeeded } => if succeeded {
            PageUpdate { status: QueueStatus::Completed, error: ErrorUpdate::Clear, request_preview: false }
        } else {
            PageUpdate { status: QueueStatus::Failed, error: ErrorUpdate::Record, request_preview: false }
        },
        PageEvent::ExportCancelled => PageUpdate { status: QueueStatus::Cancelled, ..unchanged },
    }
}

/// Decides the change `event` makes to a page whose status is `current` and
/// whose edit is at `revision`.
pub fn page_update(current: QueueStatus, revision: u64, event: PageEvent) -> (update: PageUpdate)
    ensures
        update == page_update_spec(current, revision, event),
        event == PageEvent::ExportCancelled ==> update.status == QueueStatus::Cancelled,
        event == PageEvent::ExportProgress ==> update.status == QueueStatus::Processing,
        event == (PageEvent::ExportFinished { succeeded: true }) ==> update.status
            == QueueStatus::Completed,
        event == (PageEvent::ExportFinished { succeeded: false }) ==> update.status
            == QueueStatus::Failed,
        event == (PageEvent::LoadFinished { succeeded: true }) ==> update.status == QueueStatus::Ready
            && update.request_preview,
        event == (PageEvent::LoadFinished { succeeded: false }) ==> update.status
            == QueueStatus::Failed,
        event == (PageEvent::PreviewFinished { revision, succeeded: true }) ==> update.status
            == QueueStatus::Ready,
        event == (PageEvent::PreviewCancelled { revision }) ==> update.status == QueueStatus::Ready,
        !(event is LoadFinished) ==> !update.request_preview,
{
    let unchanged = PageUpdate { status: current, error: ErrorUpdate::Keep, request_preview: false };
    match event {
        PageEvent::LoadFinished { succeeded } => if succeeded {
            PageUpdate { status: QueueStatus::Ready, error: ErrorUpdate::Clear, request_preview: true }
        } else {
            PageUpdate { status: QueueStatus::Failed, error: ErrorUpdate::Record, request_preview: false }
        },
        PageEvent::PreviewFinished { revision: r, succeeded } => if r != revision {
            unchanged
        } else if succeeded {
            PageUpdate { status: QueueStatus::Ready, error: ErrorUpdate::Clear, request_preview: false }
        } else {
            PageUpdate { status: QueueStatus::Failed, error: ErrorUpdate::Record, request_preview: false }
        },
        PageEvent::PreviewCancelled { revision: r } => if r == revision {
            PageUpdate { status: QueueStatus::Ready, ..unchanged }
        } else {
            unchanged
        },
        PageEvent::ExportProgress => PageUpdate { status: QueueStatus::Processing, ..unchanged },
        PageEvent::ExportFinished { succeeded } => if succeeded {
            PageUpdate { status: QueueStatus::Completed, error: ErrorUpdate::Clear, request_preview: false }
        } else {
            PageUpdate { status: QueueStatus::Failed, error: ErrorUpdate::Record, request_preview: false }
        },
        PageEvent::ExportCancelled => PageUpdate { status: QueueStatus::Cancelled, ..unchanged },
    }
}

/// Export, load and current-revision preview reports set the page's status
/// whatever it was before: a cancelled export leaves it cancelled, progress
/// leaves it processing, a finished export completed or failed, a finished
/// load ready (asking for a preview) or failed, a finished or cancelled
/// preview of the current edit ready (or failed); only a finished load asks
/// for a preview.
pub proof fn lemma_reports_set_the_status(current: QueueStatus, revision: u64, event: PageEvent)
    ensures
        page_update_spec(current, revision, PageEvent::ExportCancelled).status
            == QueueStatus::Cancelled,
        page_update_spec(current, revision, PageEvent::ExportProgress).status
            == QueueStatus::Processing,
        page_update_spec(current, revision, PageEvent::ExportFinished { succeeded: true }).status
            == QueueStatus::Completed,
        page_update_spec(current, revision, PageEvent::ExportFinished { succeeded: false }).status
            == QueueStatus::Failed,
        page_update_spec(current, revision, PageEvent::LoadFinished { succeeded: true }).status
            == QueueStatus::Ready,
        page_update_spec(current, revision, PageEvent::LoadFinished { succeeded: true }).request_preview,
        page_update_spec(current, revision, PageEvent::LoadFinished { succeeded: false }).status
            == QueueStatus::Failed,
        page_update_spec(current, revision, PageEvent::PreviewFinished { revision, succeeded: true }).status
            == QueueStatus::Ready,
        page_update_spec(current, revision, PageEvent::PreviewFinished { revision, succeeded: false }).status
            == QueueStatus::Failed,
        page_update_spec(current, revision, PageEvent::PreviewCancelled { revision }).status
            == QueueStatus::Ready,
        !(event is LoadFinished) ==> !page_update_spec(current, revision, event).request_preview,
{
}

/// A preview result or cancellation for a revision other than the page's
/// current one leaves the page exactly as it was.
pub proof fn lemma_stale_previews_change_nothing(
    current: QueueStatus,
    revision: u64,
    stale: u64,
    succeeded: bool,
)
    requires
        stale != revision,
    ensures
        page_update_spec(current, revision, PageEvent::PreviewFinished { revision: stale, succeeded })
            == (PageUpdate { status: current, error: ErrorUpdate::Keep, request_preview: false }),
        page_update_spec(current, revision, PageEvent::PreviewCancelled { revision: stale })
            == (PageUpdate { status: current, error: ErrorUpdate::Keep, request_preview: false }),
{
}

/// Every finished load, preview or export records an error exactly when it
/// failed, and a failure always leaves the page failed.
pub proof fn lemma_failures_are_recorded(current: QueueStatus, revision: u64, event: PageEvent)
    requires
        event matches PageEvent::LoadFinished { .. } || event matches PageEvent::ExportFinished { .. } || (
        event matches PageEvent::PreviewFinished { revision: r, .. } && r == revision),
    ensures
        ({
            let update = page_update_spec(current, revision, event);
            let succeeded = match event {
                PageEvent::LoadFinished { succeeded } => succeeded,
                PageEvent::PreviewFinished { succeeded, .. } => succeeded,
                PageEvent::ExportFinished { succeeded } => succeeded,
                _ => true,
            };
            &&& (update.error == ErrorUpdate::Record) == !succeeded
            &&& !succeeded ==> update.status == QueueStatus::Failed
            &&& succeeded ==> update.error == ErrorUpdate::Clear
        }),
{
}

} // verus!
