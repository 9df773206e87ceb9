//! The tracked items: submitted images, their classification results, and
//! the lifecycle state each item is in.

use vstd::prelude::*;

verus! {

/// A user-submitted image: its name (unique within the active set), its
/// declared media type, and its raw bytes. The bytes are immutable once
/// stored; both the analysis and the upload flow only ever read them.
#[derive(Debug, PartialEq)]
pub struct FileDetails {
    pub name: String,
    pub file_type: String,
    pub data: Vec<u8>,
}

/// Mathematical image of a [`FileDetails`]: each field as a sequence.
pub struct FileDetailsView {
    pub name: Seq<char>,
    pub file_type: Seq<char>,
    pub data: Seq<u8>,
}

impl View for FileDetails {
    type V = FileDetailsView;

    open spec fn view(&self) -> FileDetailsView {
        FileDetailsView { name: self.name@, file_type: self.file_type@, data: self.data@ }
    }
}

impl Clone for FileDetails {
    fn clone(&self) -> (res: Self)
        ensures
            res@ == self@,
    {
        let data = self.data.clone();
        assert(data@ =~= self.data@);
        FileDetails { name: self.name.clone(), file_type: self.file_type.clone(), data }
    }
}

/// One classification entry: a category label together with its confidence
/// score. Scores are kept as plain integers (a fixed-point encoding chosen
/// by the caller, e.g. millionths) so that comparing them stays exact.
#[derive(Debug, PartialEq)]
pub struct LabelScore {
    pub label: String,
    pub score: u64,
}

impl View for LabelScore {
    type V = (Seq<char>, u64);

    open spec fn view(&self) -> (Seq<char>, u64) {
        (self.label@, self.score)
    }
}

impl Clone for LabelScore {
    fn clone(&self) -> (res: Self)
        ensures
            res@ == self@,
    {
        LabelScore { label: self.label.clone(), score: self.score }
    }
}

/// The classification a batch response reports for one image: its scores
/// per category label, in the order the response listed them.
#[derive(Debug, PartialEq)]
pub struct ImageAnalysisData {
    pub overall_classification: Vec<LabelScore>,
}

impl View for ImageAnalysisData {
    type V = Seq<(Seq<char>, u64)>;

    open spec fn view(&self) -> Seq<(Seq<char>, u64)> {
        self.overall_classification@.map_values(|e: LabelScore| e@)
    }
}

impl Clone for ImageAnalysisData {
    fn clone(&self) -> (res: Self)
        ensures
            res@ == self@,
    {
        let entries = self.overall_classification.clone();
        proof {
            assert forall|i: int| 0 <= i < entries@.len() implies entries@[i]@
                == self.overall_classification@[i]@ by {
            }
            assert(entries@.map_values(|e: LabelScore| e@) =~= self@);
        }
        ImageAnalysisData { overall_classification: entries }
    }
}

/// Where an item currently stands in the analysis lifecycle.
#[derive(Debug, PartialEq)]
pub enum ImageAnalysisOutcome {
    /// Initial state after capture; the next tick may batch the item.
    WaitingToSend,
    /// The item was put in the batch with this request id and the exchange
    /// is in flight.
    WaitingForResponse(usize),
    /// The response for the item's batch contained a result for it.
    Analyzed(ImageAnalysisData),
    /// The exchange failed, or the response ignored this item.
    Error(String),
}

/// Mathematical image of an [`ImageAnalysisOutcome`].
pub enum OutcomeView {
    WaitingToSend,
    WaitingForResponse(int),
    Analyzed(Seq<(Seq<char>, u64)>),
    Error(Seq<char>),
}

impl View for ImageAnalysisOutcome {
    type V = OutcomeView;

    open spec fn view(&self) -> OutcomeView {
        match self {
            ImageAnalysisOutcome::WaitingToSend => OutcomeView::WaitingToSend,
            ImageAnalysisOutcome::WaitingForResponse(id) => OutcomeView::WaitingForResponse(
                *id as int,
            ),
            ImageAnalysisOutcome::Analyzed(d) => OutcomeView::Analyzed(d@),
            ImageAnalysisOutcome::Error(m) => OutcomeView::Error(m@),
        }
    }
}

impl Clone for ImageAnalysisOutcome {
    fn clone(&self) -> (res: Self)
        ensures
            res@ == self@,
    {
        match self {
            ImageAnalysisOutcome::WaitingToSend => ImageAnalysisOutcome::WaitingToSend,
            ImageAnalysisOutcome::WaitingForResponse(id) => {
                ImageAnalysisOutcome::WaitingForResponse(*id)
            },
            ImageAnalysisOutcome::Analyzed(d) => ImageAnalysisOutcome::Analyzed(d.clone()),
            ImageAnalysisOutcome::Error(m) => ImageAnalysisOutcome::Error(m.clone()),
        }
    }
}

/// One tracked item: the submitted image together with its current state.
#[derive(Debug, PartialEq)]
pub struct ImageAnalysisStatus {
    pub data: FileDetails,
    pub outcome: ImageAnalysisOutcome,
}

/// Mathematical image of an [`ImageAnalysisStatus`].
pub struct ItemView {
    pub file: FileDetailsView,
    pub outcome: OutcomeView,
}

impl View for ImageAnalysisStatus {
    type V = ItemView;

    open spec fn view(&self) -> ItemView {
        ItemView { file: self.data@, outcome: self.outcome@ }
    }
}

impl Clone for ImageAnalysisStatus {
    fn clone(&self) -> (res: Self)
        ensures
            res@ == self@,
    {
        ImageAnalysisStatus { data: self.data.clone(), outcome: self.outcome.clone() }
    }
}

} // verus!
