//! The archive-upload flow's unit of work: what the driver needs for one
//! upload exchange, and the model of the "currently uploading" set.

use vstd::prelude::*;

use crate::item::{FileDetails, FileDetailsView, ImageAnalysisOutcome, ItemView, OutcomeView};
use crate::label::upload_label_spec;

verus! {

/// Everything one archive upload exchange carries: the image, the best-guess
/// label, and the item's current state (serialized alongside the bytes by
/// the driver).
#[derive(Debug, PartialEq)]
pub struct UploadJob {
    pub details: FileDetails,
    pub label: String,
    pub outcome: ImageAnalysisOutcome,
}

/// Mathematical image of an [`UploadJob`].
pub struct UploadJobView {
    pub file: FileDetailsView,
    pub label: Seq<char>,
    pub outcome: OutcomeView,
}

impl View for UploadJob {
    type V = UploadJobView;

    open spec fn view(&self) -> UploadJobView {
        UploadJobView { file: self.details@, label: self.label@, outcome: self.outcome@ }
    }
}

/// The job that uploading the item `it` produces: its image, its best-guess
/// label, and its state as it stands at the moment of the request.
pub open spec fn upload_job_for(it: ItemView) -> UploadJobView {
    UploadJobView { file: it.file, label: upload_label_spec(it.outcome), outcome: it.outcome }
}

/// The name sequence `s` with every occurrence of `name` removed; the order
/// of the remaining names is kept.
pub open spec fn without_name(s: Seq<Seq<char>>, name: Seq<char>) -> Seq<Seq<char>>
    decreases s.len(),
{
    if s.len() == 0 {
        Seq::empty()
    } else {
        let rest = without_name(s.skip(1), name);
        if s[0] == name {
            rest
        } else {
            seq![s[0]] + rest
        }
    }
}

} // verus!
