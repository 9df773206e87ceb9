//! Global laws of the orchestrator, stated and proved over the same model
//! its contracts use: name uniqueness, the fate of resolved batches, the
//! impossibility of resurrecting deleted items, and the re-submission round
//! trip back into the schedule.

use vstd::prelude::*;

use crate::item::{FileDetailsView, ItemView, OutcomeView};
use crate::reconcile::{reconcile_items, reconciled_outcome, response_lookup};
use crate::schedule::{pending_count, tick_items};
use crate::store::{contains_name, find_index, lemma_find_index, names_unique};

verus! {

/// How many items of `s` are named `name`.
pub open spec fn count_with_name(s: Seq<ItemView>, name: Seq<char>) -> int
    decreases s.len(),
{
    if s.len() == 0 {
        0
    } else {
        (if s[0].file.name == name {
            1int
        } else {
            0int
        }) + count_with_name(s.skip(1), name)
    }
}

proof fn lemma_count_zero_when_absent(s: Seq<ItemView>, name: Seq<char>)
    requires
        !contains_name(s, name),
    ensures
        count_with_name(s, name) == 0,
    decreases s.len(),
{
    if s.len() > 0 {
        assert(s[0].file.name != name);
        assert forall|i: int| 0 <= i < s.skip(1).len() implies s.skip(1)[i].file.name != name by {
            assert(s.skip(1)[i] == s[i + 1]);
        }
        lemma_count_zero_when_absent(s.skip(1), name);
    }
}

/// Law: however items were submitted, deleted and re-submitted, a store with
/// unique names — the invariant every operation preserves — maps each name
/// to at most one item.
pub proof fn lemma_name_maps_to_at_most_one_item(s: Seq<ItemView>, name: Seq<char>)
    requires
        names_unique(s),
    ensures
        count_with_name(s, name) <= 1,
    decreases s.len(),
{
    if s.len() > 0 {
        assert forall|i: int, j: int| 0 <= i < j < s.skip(1).len() implies s.skip(1)[i].file.name
            != s.skip(1)[j].file.name by {
            assert(s.skip(1)[i] == s[i + 1]);
            assert(s.skip(1)[j] == s[j + 1]);
        }
        lemma_name_maps_to_at_most_one_item(s.skip(1), name);
        if s[0].file.name == name {
            assert forall|i: int| 0 <= i < s.skip(1).len() implies s.skip(1)[i].file.name
                != name by {
                assert(s.skip(1)[i] == s[i + 1]);
                assert(s[i + 1].file.name != s[0].file.name);
            }
            lemma_count_zero_when_absent(s.skip(1), name);
        }
    }
}

/// Law: reconciling a response never creates, revives or renames an item.
/// In particular, a name deleted while its batch was in flight stays absent
/// even when the batch's response carries a result for that name: deletion
/// wins, the response for it is discarded.
pub proof fn lemma_response_cannot_resurrect(
    s: Seq<ItemView>,
    rid: int,
    resp: Result<Seq<(Seq<char>, Seq<(Seq<char>, u64)>)>, Seq<char>>,
    name: Seq<char>,
)
    ensures
        contains_name(reconcile_items(s, rid, resp), name) <==> contains_name(s, name),
{
    let after = reconcile_items(s, rid, resp);
    assert forall|i: int| 0 <= i < after.len() implies (#[trigger] after[i]).file == s[i].file by {
    }
    if contains_name(after, name) {
        let i = choose|i: int| 0 <= i < after.len() && after[i].file.name == name;
        assert(s[i].file.name == name);
    }
    if contains_name(s, name) {
        let i = choose|i: int| 0 <= i < s.len() && s[i].file.name == name;
        assert(after[i].file.name == name);
    }
}

/// Law: a resolved request id never stays attached to an item. After the
/// response (or failure) for request `rid` is reconciled, no item waits for
/// `rid` any more: every member of that batch moved to `Analyzed` or
/// `Error`.
pub proof fn lemma_batch_fully_resolved(
    s: Seq<ItemView>,
    rid: int,
    resp: Result<Seq<(Seq<char>, Seq<(Seq<char>, u64)>)>, Seq<char>>,
)
    ensures
        forall|i: int|
            0 <= i < s.len() ==> (#[trigger] reconcile_items(s, rid, resp)[i]).outcome
                != OutcomeView::WaitingForResponse(rid),
{
    assert forall|i: int| 0 <= i < s.len() implies (#[trigger] reconcile_items(s, rid, resp)[i])
        .outcome != OutcomeView::WaitingForResponse(rid) by {
        if s[i].outcome == OutcomeView::WaitingForResponse(rid) {
            let out = reconciled_outcome(s[i].file.name, resp);
            match resp {
                Result::Err(why) => {
                    assert(out == OutcomeView::Error(why));
                },
                Result::Ok(entries) => {
                    match response_lookup(entries, s[i].file.name) {
                        Option::Some(d) => {
                            assert(out == OutcomeView::Analyzed(d));
                        },
                        Option::None => {
                            assert(out matches OutcomeView::Error(_));
                        },
                    }
                },
            }
        }
    }
}

/// Law: re-submitting a name after deleting it — the only recovery path for
/// an item that reached `Error` — tracks the item afresh in `WaitingToSend`,
/// and the next tick schedules it: its state becomes `WaitingForResponse`
/// with one of that tick's request ids.
pub proof fn lemma_resubmission_rejoins_schedule(
    s: Seq<ItemView>,
    file: FileDetailsView,
    first: int,
    bsize: int,
)
    requires
        names_unique(s),
        contains_name(s, file.name),
    ensures
        ({
            let deleted = s.remove(find_index(s, file.name));
            let resubmitted = deleted.push(
                ItemView { file, outcome: OutcomeView::WaitingToSend },
            );
            let idx = resubmitted.len() - 1;
            &&& !contains_name(deleted, file.name)
            &&& resubmitted[idx].outcome == OutcomeView::WaitingToSend
            &&& tick_items(resubmitted, first, bsize)[idx].outcome
                == OutcomeView::WaitingForResponse(
                first + pending_count(resubmitted, idx) / bsize,
            )
        }),
{
    lemma_find_index(s, file.name);
    let r = find_index(s, file.name);
    let deleted = s.remove(r);
    assert forall|j: int| 0 <= j < deleted.len() implies deleted[j].file.name != file.name by {
        if j < r {
            assert(deleted[j] == s[j]);
            assert(s[j].file.name != s[r].file.name);
        } else {
            assert(deleted[j] == s[j + 1]);
            assert(s[r].file.name != s[j + 1].file.name);
        }
    }
}

} // verus!
