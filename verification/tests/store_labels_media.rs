//! Tests of the Item Store's name uniqueness, the best-guess label, and the
//! media-type filter applied at capture.

use image_orchestrator::item::{FileDetails, ImageAnalysisData, ImageAnalysisOutcome, LabelScore};
use image_orchestrator::label::{best_label, is_image_media_type, upload_label};
use image_orchestrator::orchestrator::Orchestrator;
use image_orchestrator::store::ItemStore;

fn file(name: &str) -> FileDetails {
    FileDetails {
        name: name.to_string(),
        file_type: "image/gif".to_string(),
        data: vec![],
    }
}

fn data(entries: &[(&str, u64)]) -> ImageAnalysisData {
    ImageAnalysisData {
        overall_classification: entries
            .iter()
            .map(|(l, s)| LabelScore { label: l.to_string(), score: *s })
            .collect(),
    }
}

#[test]
fn every_name_maps_to_at_most_one_item() {
    let mut o = Orchestrator::new(5);
    assert!(o.submit(file("a")));
    assert!(!o.submit(file("a")));
    assert!(o.submit(file("b")));
    assert!(!o.submit(file("a")));
    assert_eq!(o.item_count(), 2);
    // Deleting and re-adding the same name is allowed.
    assert!(o.delete(&"a".to_string()));
    assert!(o.submit(file("a")));
    assert_eq!(o.item_count(), 2);
}

#[test]
fn delete_of_unknown_name_changes_nothing() {
    let mut o = Orchestrator::new(5);
    assert!(o.submit(file("a")));
    assert!(!o.delete(&"b".to_string()));
    assert_eq!(o.item_count(), 1);
}

#[test]
fn store_add_remove_and_snapshot_keep_order() {
    let mut s = ItemStore::new();
    assert!(s.add(file("one")));
    assert!(s.add(file("two")));
    assert!(s.add(file("three")));
    assert!(!s.add(file("two")));
    assert_eq!(s.len(), 3);
    assert_eq!(s.find_by_name(&"two".to_string()), Some(1));
    assert!(s.remove_by_name(&"two".to_string()));
    assert!(!s.remove_by_name(&"two".to_string()));
    let names: Vec<&str> = s.snapshot().iter().map(|it| it.data.name.as_str()).collect();
    assert_eq!(names, vec!["one", "three"]);
}

#[test]
fn store_transition_changes_exactly_one_item() {
    let mut s = ItemStore::new();
    assert!(s.add(file("one")));
    assert!(s.add(file("two")));
    s.transition(1, ImageAnalysisOutcome::WaitingForResponse(4));
    assert_eq!(s.get(0).outcome, ImageAnalysisOutcome::WaitingToSend);
    assert_eq!(s.get(1).outcome, ImageAnalysisOutcome::WaitingForResponse(4));
}

#[test]
fn best_label_picks_the_highest_score() {
    assert_eq!(best_label(&data(&[("cat", 300_000), ("dog", 650_000)])), "dog");
    assert_eq!(
        best_label(&data(&[("a", 5), ("b", 9), ("c", 7)])),
        "b"
    );
}

#[test]
fn best_label_breaks_ties_toward_the_earliest_entry() {
    assert_eq!(best_label(&data(&[("first", 5), ("second", 5)])), "first");
    assert_eq!(
        best_label(&data(&[("low", 1), ("tied1", 8), ("tied2", 8)])),
        "tied1"
    );
}

#[test]
fn best_label_of_empty_or_zero_scores_is_unknown() {
    assert_eq!(best_label(&data(&[])), "unknown");
    assert_eq!(best_label(&data(&[("nothing", 0)])), "unknown");
}

#[test]
fn upload_label_uses_placeholder_until_analyzed() {
    assert_eq!(upload_label(&ImageAnalysisOutcome::WaitingToSend), "unknown_tag");
    assert_eq!(
        upload_label(&ImageAnalysisOutcome::WaitingForResponse(3)),
        "unknown_tag"
    );
    assert_eq!(
        upload_label(&ImageAnalysisOutcome::Error("nope".to_string())),
        "unknown_tag"
    );
    assert_eq!(
        upload_label(&ImageAnalysisOutcome::Analyzed(data(&[("fox", 12)]))),
        "fox"
    );
}

#[test]
fn media_type_filter_accepts_only_images() {
    assert!(is_image_media_type("image/png"));
    assert!(is_image_media_type("image/"));
    assert!(is_image_media_type("image/svg+xml"));
    assert!(!is_image_media_type("image"));
    assert!(!is_image_media_type("text/plain"));
    assert!(!is_image_media_type(""));
    assert!(!is_image_media_type("video/mp4"));
}
