//! The "best guess" label of a classification, shared by the upload flow and
//! by export formatting, and the media-type filter applied to captured files.

use vstd::prelude::*;
use vstd::string::StringExecFns;
use vstd::string::StrSliceExecFns;

use crate::item::{ImageAnalysisData, ImageAnalysisOutcome, OutcomeView};

verus! {

/// Folds the entries still to inspect into the running best guess. A later
/// entry takes over only with a strictly higher score, so among equally
/// scored categories the earliest entry wins.
pub open spec fn best_label_from(
    entries: Seq<(Seq<char>, u64)>,
    label: Seq<char>,
    score: u64,
) -> Seq<char>
    decreases entries.len(),
{
    if entries.len() == 0 {
        label
    } else if entries[0].1 > score {
        best_label_from(entries.skip(1), entries[0].0, entries[0].1)
    } else {
        best_label_from(entries.skip(1), label, score)
    }
}

/// The best-guess label of a classification: the highest-scoring category,
/// ties resolved toward the earliest entry. A classification with no entry
/// (or none scoring above zero) yields "unknown".
pub open spec fn best_label_spec(data: Seq<(Seq<char>, u64)>) -> Seq<char> {
    best_label_from(data, "unknown"@, 0)
}

/// The label sent along with an archive upload: the best guess for an
/// analyzed item, a placeholder for one not (or not successfully) analyzed.
pub open spec fn upload_label_spec(outcome: OutcomeView) -> Seq<char> {
    match outcome {
        OutcomeView::Analyzed(d) => best_label_spec(d),
        _ => "unknown_tag"@,
    }
}

/// Computes the best-guess label of `data`.
pub fn best_label(data: &ImageAnalysisData) -> (r: String)
    ensures
        r@ == best_label_spec(data@),
{
    let mut label: String = String::new();
    label.append("unknown");
    let mut score: u64 = 0;
    proof {
        assert(label@ =~= "unknown"@);
        assert(data@.skip(0) =~= data@);
    }
    let n = data.overall_classification.len();
    let mut i: usize = 0;
    while i < n
        invariant
            n == data@.len(),
            n == data.overall_classification@.len(),
            i <= n,
            best_label_from(data@.skip(i as int), label@, score) == best_label_spec(data@),
        decreases n - i,
    {
        proof {
            assert(data@.skip(i as int)[0] == data@[i as int]);
            assert(data@.skip(i as int).skip(1) =~= data@.skip(i as int + 1));
            assert(data@[i as int] == data.overall_classification@[i as int]@);
        }
        let e = &data.overall_classification[i];
        if e.score > score {
            label = e.label.clone();
            score = e.score;
        }
        i += 1;
    }
    proof {
        assert(data@.skip(n as int) =~= Seq::<(Seq<char>, u64)>::empty());
    }
    label
}

/// Computes the label sent along with an archive upload of an item whose
/// current state is `outcome`.
pub fn upload_label(outcome: &ImageAnalysisOutcome) -> (r: String)
    ensures
        r@ == upload_label_spec(outcome@),
{
    match outcome {
        ImageAnalysisOutcome::Analyzed(d) => best_label(d),
        _ => {
            let mut s = String::new();
            s.append("unknown_tag");
            s
        },
    }
}

/// Whether a declared media type names an image, i.e. starts with "image/".
/// Only such files enter the store; everything else is ignored at capture.
pub open spec fn is_image_media_type_spec(s: Seq<char>) -> bool {
    s.len() >= 6 && s.subrange(0, 6) == "image/"@
}

/// Checks whether a declared media type names an image.
pub fn is_image_media_type(s: &str) -> (r: bool)
    ensures
        r == is_image_media_type_spec(s@),
{
    proof {
        reveal_strlit("image/");
    }
    let n = s.unicode_len();
    if n < 6 {
        return false;
    }
    let mut i: usize = 0;
    while i < 6
        invariant
            6 <= n,
            n == s@.len(),
            i <= 6,
            forall|j: int| 0 <= j < i ==> s@[j] == "image/"@[j],
        decreases 6 - i,
    {
        proof {
            reveal_strlit("image/");
        }
        let c = s.get_char(i);
        let expected = "image/".get_char(i);
        if c != expected {
            proof {
                assert(s@.subrange(0, 6)[i as int] == s@[i as int]);
            }
            return false;
        }
        i += 1;
    }
    proof {
        assert(s@.subrange(0, 6) =~= "image/"@);
    }
    true
}

} // verus!
