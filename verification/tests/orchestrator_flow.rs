//! Scenario tests of the scheduler and the analysis request pipeline:
//! batching, request ids, reconciliation, failures, and deletion races.

use image_orchestrator::item::{
    FileDetails, ImageAnalysisData, ImageAnalysisOutcome, LabelScore,
};
use image_orchestrator::orchestrator::{Orchestrator, DEFAULT_BATCH_SIZE};
use image_orchestrator::reconcile::ResponseEntry;

fn file(name: &str) -> FileDetails {
    FileDetails {
        name: name.to_string(),
        file_type: "image/png".to_string(),
        data: vec![1, 2, 3],
    }
}

fn entry(name: &str, label: &str, score: u64) -> ResponseEntry {
    ResponseEntry {
        name: name.to_string(),
        data: ImageAnalysisData {
            overall_classification: vec![LabelScore { label: label.to_string(), score }],
        },
    }
}

fn outcome_of(o: &Orchestrator, name: &str) -> ImageAnalysisOutcome {
    for it in o.list_items() {
        if it.data.name == name {
            return it.outcome.clone();
        }
    }
    panic!("item {} not tracked", name);
}

#[test]
fn tick_with_nothing_pending_changes_nothing() {
    let mut o = Orchestrator::new(DEFAULT_BATCH_SIZE);
    let batches = o.tick();
    assert_eq!(batches.len(), 0);
    assert_eq!(o.request_count(), 0);
    assert_eq!(o.item_count(), 0);

    assert!(o.submit(file("a")));
    let batches = o.tick();
    assert_eq!(batches.len(), 1);
    assert_eq!(o.request_count(), 1);

    // Everything is now in flight: the next tick owes no exchange.
    let batches = o.tick();
    assert_eq!(batches.len(), 0);
    assert_eq!(o.request_count(), 1);
    assert_eq!(
        outcome_of(&o, "a"),
        ImageAnalysisOutcome::WaitingForResponse(0)
    );
}

#[test]
fn twelve_pending_items_make_batches_of_five_five_two() {
    let mut o = Orchestrator::new(5);
    for i in 0..12 {
        assert!(o.submit(file(&format!("img{}", i))));
    }
    let batches = o.tick();
    assert_eq!(batches.len(), 3);
    assert_eq!(batches[0].members.len(), 5);
    assert_eq!(batches[1].members.len(), 5);
    assert_eq!(batches[2].members.len(), 2);
    // Distinct, strictly increasing request ids.
    assert_eq!(batches[0].request_id, 0);
    assert_eq!(batches[1].request_id, 1);
    assert_eq!(batches[2].request_id, 2);
    assert_eq!(o.request_count(), 3);
    // Store order is kept: member j of batch k is item 5*k + j.
    for (k, batch) in batches.iter().enumerate() {
        for (j, member) in batch.members.iter().enumerate() {
            assert_eq!(member.name, format!("img{}", 5 * k + j));
        }
    }
    // Every grouped item was marked before the batches were handed out.
    for i in 0..12 {
        assert_eq!(
            outcome_of(&o, &format!("img{}", i)),
            ImageAnalysisOutcome::WaitingForResponse(i / 5)
        );
    }
}

#[test]
fn reconciliation_matches_by_name_and_flags_omissions() {
    let mut o = Orchestrator::new(5);
    // Spend request ids 0..=6 so the batch under test gets id 7.
    for i in 0..7 {
        assert!(o.submit(file(&format!("earlier{}", i))));
        let batches = o.tick();
        assert_eq!(batches.len(), 1);
        assert_eq!(batches[0].request_id, i);
    }
    assert!(o.submit(file("a")));
    assert!(o.submit(file("b")));
    let batches = o.tick();
    assert_eq!(batches.len(), 1);
    assert_eq!(batches[0].request_id, 7);
    assert_eq!(batches[0].members.len(), 2);

    o.analysis_request_completed(7, Ok(vec![entry("a", "cat1", 900_000)]));
    assert_eq!(
        outcome_of(&o, "a"),
        ImageAnalysisOutcome::Analyzed(ImageAnalysisData {
            overall_classification: vec![LabelScore {
                label: "cat1".to_string(),
                score: 900_000,
            }],
        })
    );
    assert_eq!(
        outcome_of(&o, "b"),
        ImageAnalysisOutcome::Error(
            "Server seems to have ignored the provided image?!".to_string()
        )
    );
    // Items of other batches were not touched.
    assert_eq!(
        outcome_of(&o, "earlier3"),
        ImageAnalysisOutcome::WaitingForResponse(3)
    );
}

#[test]
fn transport_error_fails_whole_batch_and_nothing_else() {
    let mut o = Orchestrator::new(1);
    assert!(o.submit(file("x")));
    assert!(o.submit(file("y")));
    let batches = o.tick();
    assert_eq!(batches.len(), 2);
    assert_eq!(batches[0].request_id, 0);
    assert_eq!(batches[1].request_id, 1);

    let why = "Error while sending request: connection refused".to_string();
    o.analysis_request_completed(0, Err(why.clone()));
    assert_eq!(outcome_of(&o, "x"), ImageAnalysisOutcome::Error(why));
    assert_eq!(
        outcome_of(&o, "y"),
        ImageAnalysisOutcome::WaitingForResponse(1)
    );
}

#[test]
fn parse_error_fails_every_member_of_the_batch() {
    let mut o = Orchestrator::new(5);
    assert!(o.submit(file("x")));
    assert!(o.submit(file("y")));
    let batches = o.tick();
    assert_eq!(batches.len(), 1);
    let why = "Data returned was not valid JSON: expected value".to_string();
    o.analysis_request_completed(0, Err(why.clone()));
    assert_eq!(outcome_of(&o, "x"), ImageAnalysisOutcome::Error(why.clone()));
    assert_eq!(outcome_of(&o, "y"), ImageAnalysisOutcome::Error(why));
}

#[test]
fn deleted_item_is_not_resurrected_by_its_response() {
    let mut o = Orchestrator::new(5);
    assert!(o.submit(file("x")));
    let batches = o.tick();
    assert_eq!(batches.len(), 1);
    assert!(o.delete(&"x".to_string()));
    assert_eq!(o.item_count(), 0);

    // The response for the in-flight batch arrives late and names "x".
    o.analysis_request_completed(0, Ok(vec![entry("x", "cat", 500_000)]));
    assert_eq!(o.item_count(), 0);
}

#[test]
fn late_response_does_not_touch_a_readded_namesake() {
    let mut o = Orchestrator::new(5);
    assert!(o.submit(file("x")));
    let batches = o.tick();
    assert_eq!(batches.len(), 1);
    assert!(o.delete(&"x".to_string()));
    assert!(o.submit(file("x")));

    // The re-added "x" waits to be sent; the old batch's response is for the
    // deleted item and must leave the new one alone.
    o.analysis_request_completed(0, Ok(vec![entry("x", "cat", 500_000)]));
    assert_eq!(o.item_count(), 1);
    assert_eq!(outcome_of(&o, "x"), ImageAnalysisOutcome::WaitingToSend);
}

#[test]
fn resubmission_after_error_rejoins_the_schedule() {
    let mut o = Orchestrator::new(5);
    assert!(o.submit(file("x")));
    let batches = o.tick();
    assert_eq!(batches.len(), 1);
    o.analysis_request_completed(0, Err("Error while sending request: boom".to_string()));
    assert!(matches!(
        outcome_of(&o, "x"),
        ImageAnalysisOutcome::Error(_)
    ));

    // Recovery is user-driven: delete, re-add, and the next tick batches it.
    assert!(o.delete(&"x".to_string()));
    assert!(o.submit(file("x")));
    assert_eq!(outcome_of(&o, "x"), ImageAnalysisOutcome::WaitingToSend);
    let batches = o.tick();
    assert_eq!(batches.len(), 1);
    assert_eq!(batches[0].request_id, 1);
    assert_eq!(
        outcome_of(&o, "x"),
        ImageAnalysisOutcome::WaitingForResponse(1)
    );
}

#[test]
fn responses_may_arrive_out_of_order() {
    let mut o = Orchestrator::new(1);
    assert!(o.submit(file("x")));
    assert!(o.submit(file("y")));
    let batches = o.tick();
    assert_eq!(batches.len(), 2);

    // Batch 1 resolves before batch 0.
    o.analysis_request_completed(1, Ok(vec![entry("y", "dog", 750_000)]));
    assert_eq!(
        outcome_of(&o, "x"),
        ImageAnalysisOutcome::WaitingForResponse(0)
    );
    o.analysis_request_completed(0, Ok(vec![entry("x", "cat", 250_000)]));
    assert!(matches!(
        outcome_of(&o, "x"),
        ImageAnalysisOutcome::Analyzed(_)
    ));
    assert!(matches!(
        outcome_of(&o, "y"),
        ImageAnalysisOutcome::Analyzed(_)
    ));
}

#[test]
fn batch_members_carry_payload_and_media_type() {
    let mut o = Orchestrator::new(5);
    let f = FileDetails {
        name: "shot".to_string(),
        file_type: "image/jpeg".to_string(),
        data: vec![9, 8, 7, 6],
    };
    assert!(o.submit(f));
    let batches = o.tick();
    assert_eq!(batches.len(), 1);
    assert_eq!(batches[0].members[0].name, "shot");
    assert_eq!(batches[0].members[0].file_type, "image/jpeg");
    assert_eq!(batches[0].members[0].data, vec![9, 8, 7, 6]);
}
