use std::path::Path;

use scanner_core::backend::OpenCvAdapter;
use scanner_core::history::EditHistory;
use scanner_core::navigation::{
    display_order_key, file_name_for_message, file_name_for_sort, message_file_name, select_relative, sort_key,
    ExportTally, MessageLog,
};
use scanner_core::preferences::Preferences;
use scanner_core::queue::{page_update, ErrorUpdate, PageEvent, PageUpdate};
use scanner_core::QueueStatus;
use scanner_core::tasks::{next_task_id, plan_after, plan_before, BeforeWork, JobKind, Report};
use scanner_core::LanguagePreference;

#[test]
fn undo_and_redo_walk_the_history() {
    let mut history: EditHistory<&str> = EditHistory::new(0);
    assert!(!history.can_undo());
    assert_eq!(history.record("a"), 1);
    assert_eq!(history.record("b"), 2);
    assert_eq!(history.undo("c"), ("b", Some(3)));
    assert!(history.can_redo());
    assert_eq!(history.redo("b"), ("c", Some(4)));
    assert_eq!(history.undo("c"), ("b", Some(5)));
    assert_eq!(history.undo("b"), ("a", Some(6)));
    assert_eq!(history.undo("a"), ("a", None));
    assert_eq!(history.revision(), 6);
    assert_eq!(history.record("z"), 7);
    assert!(!history.can_redo());
    assert_eq!(history.redo("x"), ("x", None));
    let mut saturated: EditHistory<u8> = EditHistory::new(u64::MAX);
    assert_eq!(saturated.record(1), u64::MAX);
    saturated.set_revision(9);
    assert_eq!(saturated.revision(), 9);
    assert!(saturated.can_undo());
}

#[test]
fn selection_wraps_around() {
    assert_eq!(select_relative(Some(0), -1, 3), Some(2));
    assert_eq!(select_relative(Some(2), 1, 3), Some(0));
    assert_eq!(select_relative(None, 1, 3), Some(1));
    assert_eq!(select_relative(None, -1, 3), Some(2));
    assert_eq!(select_relative(Some(1), -7, 3), Some(0));
    assert_eq!(select_relative(None, 1, 0), None);
    assert_eq!(select_relative(Some(4), isize::MIN, 5), Some(1));
    assert_eq!(select_relative(Some(4), isize::MAX, 5), Some(1));
}

#[test]
fn message_log_keeps_the_four_newest() {
    let mut log = MessageLog::new();
    assert_eq!(log.latest(), None);
    for i in 0..6 {
        log.push(format!("m{i}"));
    }
    assert_eq!(log.latest(), Some("m5".to_owned()));
}

#[test]
fn export_tally_counts_a_batch() {
    let mut tally = ExportTally::new();
    tally.queued();
    tally.queued();
    tally.completed();
    tally.failed();
    assert_eq!((tally.total, tally.completed, tally.failed), (2, 1, 1));
    tally.begin_batch(true);
    assert_eq!(tally.total, 2);
    tally.begin_batch(false);
    assert_eq!(tally, ExportTally::new());
}

#[test]
fn file_names_for_messages_and_sorting() {
    assert_eq!(file_name_for_message(Path::new("/out/Page (1).PNG")), "Page (1).PNG");
    assert_eq!(file_name_for_message(Path::new("/")), "output");
    assert_eq!(file_name_for_sort(Path::new("/out/Page (1).PNG")), "page (1).png");
    assert_eq!(file_name_for_sort(Path::new("/")), "/");
}

#[test]
fn worker_honours_cancellation() {
    assert_eq!(plan_before(JobKind::Load, true), BeforeWork::Run { announce: false });
    assert_eq!(plan_before(JobKind::Preview, true), BeforeWork::Skip(Report::PreviewCancelled));
    assert_eq!(plan_before(JobKind::Export, false), BeforeWork::Run { announce: true });
    assert_eq!(plan_before(JobKind::Export, true), BeforeWork::Skip(Report::ExportCancelled));
    let after = plan_after(JobKind::Export, true, true);
    assert!(after.remove_output);
    assert_eq!(after.reports, vec![Report::ExportCancelled]);
    let after = plan_after(JobKind::Export, false, true);
    assert!(!after.remove_output);
    assert_eq!(after.reports, vec![Report::ExportCompleted, Report::ExportFinished]);
    let after = plan_after(JobKind::Export, false, false);
    assert_eq!(after.reports, vec![Report::ExportFinished]);
    assert_eq!(plan_after(JobKind::Preview, true, true).reports, vec![Report::PreviewCancelled]);
    assert_eq!(plan_after(JobKind::Preview, false, false).reports, vec![Report::PreviewReady]);
    assert_eq!(plan_after(JobKind::Load, true, false).reports, vec![Report::Loaded]);
}

#[test]
fn task_ids_count_up_and_saturate() {
    let (count, id) = next_task_id(0);
    assert_eq!(count, 1);
    assert_eq!(id.get(), 1);
    let (count, id) = next_task_id(u64::MAX);
    assert_eq!(count, u64::MAX);
    assert_eq!(id.get(), u64::MAX);
}

#[test]
fn adapter_and_preferences_defaults() {
    assert_eq!(OpenCvAdapter::new().backend_name(), "opencv");
    assert_eq!(OpenCvAdapter::default(), OpenCvAdapter::new());
    assert_eq!(Preferences::default().language, LanguagePreference::Auto);
}

#[test]
fn worker_reports_update_the_page() {
    let loaded = page_update(QueueStatus::Loading, 0, PageEvent::LoadFinished { succeeded: true });
    assert_eq!(
        loaded,
        PageUpdate { status: QueueStatus::Ready, error: ErrorUpdate::Clear, request_preview: true }
    );
    let failed = page_update(QueueStatus::Loading, 0, PageEvent::LoadFinished { succeeded: false });
    assert_eq!(failed.status, QueueStatus::Failed);
    assert_eq!(failed.error, ErrorUpdate::Record);
    assert!(!failed.request_preview);
    let ready = page_update(
        QueueStatus::Previewing,
        3,
        PageEvent::PreviewFinished { revision: 3, succeeded: true },
    );
    assert_eq!(ready.status, QueueStatus::Ready);
    assert_eq!(ready.error, ErrorUpdate::Clear);
    let broken = page_update(
        QueueStatus::Previewing,
        3,
        PageEvent::PreviewFinished { revision: 3, succeeded: false },
    );
    assert_eq!(broken.status, QueueStatus::Failed);
    assert_eq!(
        page_update(QueueStatus::Processing, 3, PageEvent::ExportFinished { succeeded: true }).status,
        QueueStatus::Completed
    );
    assert_eq!(
        page_update(QueueStatus::Queued, 3, PageEvent::ExportProgress).status,
        QueueStatus::Processing
    );
    assert_eq!(
        page_update(QueueStatus::Queued, 3, PageEvent::ExportCancelled).status,
        QueueStatus::Cancelled
    );
    assert_eq!(
        page_update(QueueStatus::Previewing, 3, PageEvent::PreviewCancelled { revision: 3 }).status,
        QueueStatus::Ready
    );
}

#[test]
fn stale_previews_are_ignored() {
    let unchanged =
        PageUpdate { status: QueueStatus::Previewing, error: ErrorUpdate::Keep, request_preview: false };
    assert_eq!(
        page_update(
            QueueStatus::Previewing,
            4,
            PageEvent::PreviewFinished { revision: 3, succeeded: true }
        ),
        unchanged
    );
    assert_eq!(
        page_update(QueueStatus::Previewing, 4, PageEvent::PreviewCancelled { revision: 3 }),
        unchanged
    );
}

#[test]
fn message_names_and_sort_keys_choose_their_text() {
    assert_eq!(message_file_name(Some("page-01.png".to_owned())), "page-01.png");
    assert_eq!(message_file_name(None), "output");
    assert_eq!(sort_key(Some("Page-B.PNG".to_owned()), "/in/Page-B.PNG".to_owned()), "page-b.png");
    assert_eq!(sort_key(None, "/In/".to_owned()), "/in/");
    assert_eq!(file_name_for_message(Path::new("/out/Scan (1).png")), "Scan (1).png");
    assert_eq!(file_name_for_message(Path::new("/")), "output");
}

#[test]
fn folder_files_are_ordered_by_folded_then_exact_name() {
    assert_eq!(
        display_order_key(Path::new("/in/Page-B.png")),
        ("page-b.png".to_owned(), "Page-B.png".to_owned())
    );
    let mut paths = vec![Path::new("/in/b.png"), Path::new("/in/B.png"), Path::new("/in/a.png")];
    paths.sort_by_key(|path| display_order_key(path));
    assert_eq!(paths, vec![Path::new("/in/a.png"), Path::new("/in/B.png"), Path::new("/in/b.png")]);
    assert_eq!(file_name_for_sort(Path::new("/Dir/Sub/Page.PNG")), "page.png");
}
