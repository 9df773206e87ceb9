//! Scenario tests of the archive-upload flow and its notification log.

use image_orchestrator::item::{
    FileDetails, ImageAnalysisData, ImageAnalysisOutcome, LabelScore,
};
use image_orchestrator::notify::Severity;
use image_orchestrator::orchestrator::Orchestrator;
use image_orchestrator::reconcile::ResponseEntry;

fn file(name: &str) -> FileDetails {
    FileDetails {
        name: name.to_string(),
        file_type: "image/png".to_string(),
        data: vec![42],
    }
}

#[test]
fn upload_success_appends_exactly_one_success_notification() {
    let mut o = Orchestrator::new(5);
    assert!(o.submit(file("a")));
    let job = o.start_upload(&"a".to_string()).expect("item is tracked");
    assert_eq!(job.details.name, "a");
    assert_eq!(o.uploading_count(), 1);
    assert_eq!(o.notification_count(), 0);

    o.finish_upload("a".to_string(), Ok(()));
    assert_eq!(o.uploading_count(), 0);
    assert_eq!(o.notification_count(), 1);
    let n = &o.list_notifications()[0];
    assert_eq!(n.severity, Severity::Success);
    assert_eq!(n.item_name, "a");
    assert_eq!(n.detail, "");
    assert!(!n.dismissed);
    assert_eq!(n.message(), "Successfully uploaded a!");
}

#[test]
fn upload_failure_appends_exactly_one_failure_notification() {
    let mut o = Orchestrator::new(5);
    assert!(o.submit(file("b")));
    let _job = o.start_upload(&"b".to_string()).expect("item is tracked");
    o.finish_upload(
        "b".to_string(),
        Err("Error status in upload: 500".to_string()),
    );
    assert_eq!(o.uploading_count(), 0);
    assert_eq!(o.notification_count(), 1);
    let n = &o.list_notifications()[0];
    assert_eq!(n.severity, Severity::Failure);
    assert_eq!(n.item_name, "b");
    assert_eq!(n.detail, "Error status in upload: 500");
    assert_eq!(n.message(), "Failed to upload b: Error status in upload: 500");
}

#[test]
fn dismissal_never_shrinks_the_notification_log() {
    let mut o = Orchestrator::new(5);
    assert!(o.submit(file("a")));
    o.start_upload(&"a".to_string());
    o.finish_upload("a".to_string(), Ok(()));
    o.start_upload(&"a".to_string());
    o.finish_upload("a".to_string(), Err("Error status in upload: 418".to_string()));
    assert_eq!(o.notification_count(), 2);

    assert!(o.dismiss(0));
    // Deliberately kept behavior: a dismissed notification stays in the log
    // and in its count.
    assert_eq!(o.notification_count(), 2);
    assert!(o.list_notifications()[0].dismissed);
    assert!(!o.list_notifications()[1].dismissed);

    // Out-of-range ids change nothing.
    assert!(!o.dismiss(17));
    assert_eq!(o.notification_count(), 2);
}

#[test]
fn upload_of_unknown_name_starts_nothing() {
    let mut o = Orchestrator::new(5);
    assert!(o.start_upload(&"ghost".to_string()).is_none());
    assert_eq!(o.uploading_count(), 0);
    assert_eq!(o.notification_count(), 0);
}

#[test]
fn upload_all_fans_out_one_job_per_item_in_store_order() {
    let mut o = Orchestrator::new(5);
    assert!(o.submit(file("a")));
    assert!(o.submit(file("b")));
    assert!(o.submit(file("c")));
    let jobs = o.start_upload_all();
    assert_eq!(jobs.len(), 3);
    assert_eq!(jobs[0].details.name, "a");
    assert_eq!(jobs[1].details.name, "b");
    assert_eq!(jobs[2].details.name, "c");
    assert_eq!(o.uploading_count(), 3);
    o.finish_upload("b".to_string(), Ok(()));
    assert_eq!(o.uploading_count(), 2);
}

#[test]
fn upload_job_of_unanalyzed_item_carries_placeholder_label() {
    let mut o = Orchestrator::new(5);
    assert!(o.submit(file("a")));
    let job = o.start_upload(&"a".to_string()).expect("item is tracked");
    assert_eq!(job.label, "unknown_tag");
    assert_eq!(job.outcome, ImageAnalysisOutcome::WaitingToSend);
}

#[test]
fn upload_job_of_analyzed_item_carries_best_label_and_outcome() {
    let mut o = Orchestrator::new(5);
    assert!(o.submit(file("a")));
    let batches = o.tick();
    assert_eq!(batches.len(), 1);
    o.analysis_request_completed(
        0,
        Ok(vec![ResponseEntry {
            name: "a".to_string(),
            data: ImageAnalysisData {
                overall_classification: vec![
                    LabelScore { label: "cat".to_string(), score: 300_000 },
                    LabelScore { label: "dog".to_string(), score: 650_000 },
                ],
            },
        }]),
    );
    let job = o.start_upload(&"a".to_string()).expect("item is tracked");
    assert_eq!(job.label, "dog");
    assert!(matches!(job.outcome, ImageAnalysisOutcome::Analyzed(_)));
    // Uploading never alters the item's lifecycle state.
    assert!(matches!(
        o.list_items()[0].outcome,
        ImageAnalysisOutcome::Analyzed(_)
    ));
}

#[test]
fn concurrent_uploads_of_one_item_are_allowed_and_each_reports() {
    let mut o = Orchestrator::new(5);
    assert!(o.submit(file("a")));
    o.start_upload(&"a".to_string());
    o.start_upload(&"a".to_string());
    assert_eq!(o.uploading_count(), 2);
    // Finishing removes every entry of that name, mirroring the shipped
    // behavior; each finish still logs its own notification.
    o.finish_upload("a".to_string(), Ok(()));
    assert_eq!(o.uploading_count(), 0);
    o.finish_upload("a".to_string(), Ok(()));
    assert_eq!(o.notification_count(), 2);
}
