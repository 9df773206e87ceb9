//! The orchestrator: owns the Item Store, the request counter, the
//! "currently uploading" set and the Notification Log, and exposes the
//! entry points a driver calls — `submit`, `delete`, `tick`,
//! `analysis_request_completed`, the upload flow, and the read-only
//! snapshots the view layer renders.

use vstd::prelude::*;

use crate::item::{
    FileDetails, ImageAnalysisOutcome, ImageAnalysisStatus, ItemView, OutcomeView,
};
use crate::label::upload_label;
use crate::notify::{Notification, NotificationLog, NotificationView, Severity};
use crate::reconcile::{
    find_entry, ignored_message_text, reconcile_items, reconciled_outcome, response_view,
    AnalysisResponse,
};
use crate::schedule::{
    batch_count, batch_size_at, lemma_batch_count_zero, lemma_group_step,
    lemma_pending_count_bounds, lemma_pending_count_monotone, lemma_rank_id_bound, pending_count,
    pending_total, tick_items, Batch,
};
use crate::store::{contains_name, find_index, items_view, names_unique, ItemStore};
use vstd::arithmetic::div_mod::lemma_fundamental_div_mod;
use crate::upload::{upload_job_for, without_name, UploadJob};

verus! {

/// Number of items per outbound analysis batch unless the driver chooses
/// otherwise.
pub const DEFAULT_BATCH_SIZE: usize = 5;

/// The names of the "currently uploading" set, in order of starting.
pub open spec fn names_view(s: Seq<String>) -> Seq<Seq<char>> {
    s.map_values(|n: String| n@)
}

/// The orchestrator's state. All mutation of the Item Store goes through
/// this type's methods, which is what preserves the store's invariants.
pub struct Orchestrator {
    store: ItemStore,
    requests_sent: usize,
    batch_size: usize,
    uploading: Vec<String>,
    notifications: NotificationLog,
}

impl Orchestrator {
    /// The tracked items, in store order.
    pub closed spec fn items(self) -> Seq<ItemView> {
        self.store@
    }

    /// The next unused request id; ids `0 .. request_counter()` were already
    /// assigned to batches, and none is ever reused.
    pub closed spec fn request_counter(self) -> int {
        self.requests_sent as int
    }

    /// The most items one batch may carry.
    pub closed spec fn batch_limit(self) -> int {
        self.batch_size as int
    }

    /// The names of the items with an archive upload in flight, one entry
    /// per started upload.
    pub closed spec fn uploading_names(self) -> Seq<Seq<char>> {
        names_view(self.uploading@)
    }

    /// The notification log, oldest first.
    pub closed spec fn notes(self) -> Seq<NotificationView> {
        self.notifications@
    }

    /// Well-formedness: item names are unique, batches are nonempty, and
    /// every in-flight request id was in fact assigned.
    pub open spec fn wf(self) -> bool {
        &&& names_unique(self.items())
        &&& self.batch_limit() >= 1
        &&& forall|i: int|
            0 <= i < self.items().len() ==> match #[trigger] self.items()[i].outcome {
                OutcomeView::WaitingForResponse(id) => 0 <= id < self.request_counter(),
                _ => true,
            }
    }

    /// A fresh orchestrator: nothing tracked, no request id used yet, no
    /// upload running, no notification logged.
    pub fn new(batch_size: usize) -> (o: Self)
        requires
            batch_size >= 1,
        ensures
            o.wf(),
            o.items() =~= Seq::<ItemView>::empty(),
            o.request_counter() == 0,
            o.batch_limit() == batch_size,
            o.uploading_names() =~= Seq::<Seq<char>>::empty(),
            o.notes() =~= Seq::<NotificationView>::empty(),
    {
        let o = Orchestrator {
            store: ItemStore::new(),
            requests_sent: 0,
            batch_size,
            uploading: Vec::new(),
            notifications: NotificationLog::new(),
        };
        proof {
            assert(o.uploading_names() =~= Seq::<Seq<char>>::empty());
        }
        o
    }

    /// Adds a captured image in state `WaitingToSend`. A name already
    /// tracked is rejected and nothing changes: the caller must delete the
    /// old item first, so every name maps to at most one item.
    pub fn submit(&mut self, file: FileDetails) -> (added: bool)
        requires
            old(self).wf(),
        ensures
            final(self).wf(),
            added == !contains_name(old(self).items(), file@.name),
            added ==> final(self).items() == old(self).items().push(
                ItemView { file: file@, outcome: OutcomeView::WaitingToSend },
            ),
            !added ==> final(self).items() == old(self).items(),
            final(self).request_counter() == old(self).request_counter(),
            final(self).batch_limit() == old(self).batch_limit(),
            final(self).uploading_names() == old(self).uploading_names(),
            final(self).notes() == old(self).notes(),
    {
        let ghost pre = self.store@;
        let added = self.store.add(file);
        proof {
            if added {
                assert forall|i: int| 0 <= i < self.items().len() implies match #[trigger] self
                    .items()[i].outcome {
                    OutcomeView::WaitingForResponse(id) => 0 <= id < self.request_counter(),
                    _ => true,
                } by {
                    if i < pre.len() {
                        assert(self.items()[i] == pre[i]);
                    }
                }
            }
        }
        added
    }

    /// Deletes the item named `name`, whatever state it is in. An in-flight
    /// batch containing the item is unaffected; the item's part of that
    /// batch's response will simply be discarded.
    pub fn delete(&mut self, name: &String) -> (removed: bool)
        requires
            old(self).wf(),
        ensures
            final(self).wf(),
            removed == contains_name(old(self).items(), name@),
            removed ==> final(self).items() == old(self).items().remove(
                find_index(old(self).items(), name@),
            ),
            !removed ==> final(self).items() == old(self).items(),
            final(self).request_counter() == old(self).request_counter(),
            final(self).batch_limit() == old(self).batch_limit(),
            final(self).uploading_names() == old(self).uploading_names(),
            final(self).notes() == old(self).notes(),
    {
        let ghost pre = self.store@;
        let removed = self.store.remove_by_name(name);
        proof {
            if removed {
                let idx = find_index(pre, name@);
                crate::store::lemma_find_index(pre, name@);
                assert forall|i: int| 0 <= i < self.items().len() implies match #[trigger] self
                    .items()[i].outcome {
                    OutcomeView::WaitingForResponse(id) => 0 <= id < self.request_counter(),
                    _ => true,
                } by {
                    if i < idx {
                        assert(self.items()[i] == pre[i]);
                    } else {
                        assert(self.items()[i] == pre[i + 1]);
                    }
                }
            }
        }
        removed
    }

    /// One scheduler tick. Scans the store in order for items in
    /// `WaitingToSend`, groups them into consecutive batches of at most
    /// `batch_size` members, assigns each batch the next unused request id —
    /// strictly increasing, never reused — and moves every grouped item to
    /// `WaitingForResponse(id)` before the batches are handed back, so no
    /// reader ever sees an item picked for sending but not yet marked.
    ///
    /// The returned batches are independent units of work: the driver sends
    /// each as one exchange and may let any number of them, from this tick
    /// and earlier ones, resolve in any order. An empty result means nothing
    /// was pending: the tick changed nothing and no exchange is owed.
    pub fn tick(&mut self) -> (batches: Vec<Batch>)
        requires
            old(self).wf(),
            old(self).request_counter() + old(self).items().len() <= usize::MAX,
        ensures
            final(self).wf(),
            final(self).items() == tick_items(
                old(self).items(),
                old(self).request_counter(),
                old(self).batch_limit(),
            ),
            final(self).request_counter() == old(self).request_counter() + batch_count(
                pending_total(old(self).items()),
                old(self).batch_limit(),
            ),
            final(self).batch_limit() == old(self).batch_limit(),
            final(self).uploading_names() == old(self).uploading_names(),
            final(self).notes() == old(self).notes(),
            batches@.len() == batch_count(
                pending_total(old(self).items()),
                old(self).batch_limit(),
            ),
            forall|k: int|
                0 <= k < batches@.len() ==> (#[trigger] batches@[k]).request_id as int == old(
                    self,
                ).request_counter() + k,
            forall|k: int|
                0 <= k < batches@.len() ==> (#[trigger] batches@[k]).members@.len()
                    == batch_size_at(
                    pending_total(old(self).items()),
                    old(self).batch_limit(),
                    k,
                ),
            forall|i: int|
                0 <= i < old(self).items().len() && (#[trigger] old(self).items()[i]).outcome
                    == OutcomeView::WaitingToSend ==> batches@[pending_count(
                    old(self).items(),
                    i,
                ) / old(self).batch_limit()].members@[pending_count(old(self).items(), i) % old(
                    self,
                ).batch_limit()]@ == old(self).items()[i].file,
            pending_total(old(self).items()) == 0 ==> batches@.len() == 0 && final(self).items()
                == old(self).items(),
    {
        let ghost orig = *self;
        let ghost s0 = self.store@;
        let ghost first = self.requests_sent as int;
        let ghost b = self.batch_size as int;
        let n = self.store.len();
        let mut batches: Vec<Batch> = Vec::new();
        let mut processed: usize = 0;
        let mut i: usize = 0;
        proof {
            lemma_batch_count_zero(b);
        }
        while i < n
            invariant
                orig.wf(),
                self.requests_sent == orig.requests_sent,
                self.batch_size == orig.batch_size,
                self.uploading == orig.uploading,
                self.notifications == orig.notifications,
                s0 == orig.store@,
                first == orig.requests_sent as int,
                b == orig.batch_size as int,
                1 <= b,
                first + s0.len() <= usize::MAX,
                n == s0.len(),
                self.store@.len() == n,
                i <= n,
                processed as int == pending_count(s0, i as int),
                processed <= i,
                forall|j: int| i <= j < n ==> self.store@[j] == s0[j],
                forall|j: int|
                    0 <= j < i ==> #[trigger] self.store@[j] == tick_items(s0, first, b)[j],
                forall|j: int| 0 <= j < n ==> (#[trigger] self.store@[j]).file == s0[j].file,
                names_unique(self.store@),
                batches@.len() == batch_count(processed as int, b),
                batches@.len() <= processed,
                forall|k: int|
                    0 <= k < batches@.len() ==> (#[trigger] batches@[k]).request_id as int == first
                        + k,
                forall|k: int|
                    0 <= k < batches@.len() ==> (#[trigger] batches@[k]).members@.len()
                        == batch_size_at(processed as int, b, k),
                forall|j: int|
                    0 <= j < i && (#[trigger] s0[j]).outcome == OutcomeView::WaitingToSend
                        ==> batches@[pending_count(s0, j) / b].members@[pending_count(s0, j) % b]@
                        == s0[j].file,
            decreases n - i,
        {
            let pending_now = match &self.store.get(i).outcome {
                ImageAnalysisOutcome::WaitingToSend => true,
                _ => false,
            };
            if pending_now {
                let ghost r = processed as int;
                let k = processed / self.batch_size;
                let m = processed % self.batch_size;
                proof {
                    lemma_fundamental_div_mod(r, b);
                    lemma_group_step(r, b, k as int, m as int);
                    lemma_pending_count_bounds(s0, i as int);
                }
                let rid = self.requests_sent + k;
                if m == 0 {
                    batches.push(Batch { request_id: rid, members: Vec::new() });
                }
                let last = batches.len() - 1;
                let file = self.store.get(i).data.clone();
                let ghost batches_mid = batches@;
                let bref = &mut batches[last];
                bref.members.push(file);
                self.store.transition(i, ImageAnalysisOutcome::WaitingForResponse(rid));
                proof {
                    // The new member sits in batch `k` at position `m`; every
                    // slot filled by an earlier pending item is untouched.
                    assert forall|j: int|
                        0 <= j < i + 1 && (#[trigger] s0[j]).outcome == OutcomeView::WaitingToSend
                            implies batches@[pending_count(s0, j) / b].members@[pending_count(
                        s0,
                        j,
                    ) % b]@ == s0[j].file by {
                        if j < i {
                            let pcj = pending_count(s0, j);
                            lemma_pending_count_bounds(s0, j);
                            assert(pending_count(s0, j + 1) == pcj + 1);
                            lemma_pending_count_monotone(s0, j + 1, i as int);
                            lemma_fundamental_div_mod(pcj, b);
                            let kj = pcj / b;
                            let mj = pcj % b;
                            vstd::arithmetic::div_mod::lemma_div_is_ordered(pcj, r - 1, b);
                            assert(kj <= k);
                            assert(batches@[kj].members@[mj] == batches_mid[kj].members@[mj]);
                        } else {
                            assert(pending_count(s0, j) == r);
                        }
                    }
                }
                processed += 1;
            }
            proof {
                assert(pending_count(s0, i as int + 1) == pending_count(s0, i as int) + (
                if s0[i as int].outcome == OutcomeView::WaitingToSend {
                    1int
                } else {
                    0int
                }));
            }
            i += 1;
        }
        let nb = batches.len();
        self.requests_sent = self.requests_sent + nb;
        proof {
            let p = pending_total(s0);
            assert(processed as int == p);
            assert(self.store@ =~= tick_items(s0, first, b));
            assert forall|j: int| 0 <= j < self.items().len() implies match #[trigger] self
                .items()[j].outcome {
                OutcomeView::WaitingForResponse(id) => 0 <= id < self.request_counter(),
                _ => true,
            } by {
                if s0[j].outcome == OutcomeView::WaitingToSend {
                    lemma_pending_count_bounds(s0, j);
                    lemma_pending_count_monotone(s0, j + 1, n as int);
                    lemma_rank_id_bound(pending_count(s0, j), b, p);
                } else {
                    assert(self.items()[j] == s0[j]);
                }
            }
            if p == 0 {
                lemma_batch_count_zero(b);
                assert forall|j: int| 0 <= j < n implies s0[j].outcome
                    != OutcomeView::WaitingToSend by {
                    if s0[j].outcome == OutcomeView::WaitingToSend {
                        lemma_pending_count_bounds(s0, j);
                        lemma_pending_count_monotone(s0, j + 1, n as int);
                    }
                }
                assert(tick_items(s0, first, b) =~= s0);
            }
        }
        batches
    }

    /// Reconciles the outcome of the exchange for request `request_id` back
    /// onto the items of that batch: exactly the items still waiting for
    /// `request_id` move. On a transport or parse failure (`Err`) every one
    /// of them becomes `Error` with the failure message; on a parsed
    /// response each becomes `Analyzed` with its own result, or `Error` when
    /// the response left its name out. Items of other batches, and items
    /// deleted (and possibly re-added) meanwhile, are untouched.
    pub fn analysis_request_completed(
        &mut self,
        request_id: usize,
        data: Result<AnalysisResponse, String>,
    )
        requires
            old(self).wf(),
        ensures
            final(self).wf(),
            final(self).items() == reconcile_items(
                old(self).items(),
                request_id as int,
                response_view(data),
            ),
            final(self).request_counter() == old(self).request_counter(),
            final(self).batch_limit() == old(self).batch_limit(),
            final(self).uploading_names() == old(self).uploading_names(),
            final(self).notes() == old(self).notes(),
    {
        let ghost orig = *self;
        let ghost pre = self.store@;
        let ghost rv = response_view(data);
        let n = self.store.len();
        let mut i: usize = 0;
        while i < n
            invariant
                orig.wf(),
                n == self.store@.len(),
                pre == orig.store@,
                pre.len() == n,
                i <= n,
                rv == response_view(data),
                self.requests_sent == orig.requests_sent,
                self.batch_size == orig.batch_size,
                self.uploading == orig.uploading,
                self.notifications == orig.notifications,
                names_unique(self.store@),
                forall|j: int| i <= j < n ==> self.store@[j] == pre[j],
                forall|j: int|
                    0 <= j < i ==> self.store@[j] == reconcile_items(
                        pre,
                        request_id as int,
                        rv,
                    )[j],
            decreases n - i,
        {
            let matches_this = match &self.store.get(i).outcome {
                ImageAnalysisOutcome::WaitingForResponse(id) => *id == request_id,
                _ => false,
            };
            if matches_this {
                let name = self.store.get(i).data.name.clone();
                let new_outcome = match &data {
                    Result::Ok(entries) => {
                        match find_entry(entries, &name) {
                            Option::Some(d) => ImageAnalysisOutcome::Analyzed(d.clone()),
                            Option::None => ImageAnalysisOutcome::Error(ignored_message_text()),
                        }
                    },
                    Result::Err(why) => ImageAnalysisOutcome::Error(why.clone()),
                };
                proof {
                    assert(new_outcome@ == reconciled_outcome(pre[i as int].file.name, rv));
                }
                self.store.transition(i, new_outcome);
            }
            i += 1;
        }
        proof {
            assert(self.store@ =~= reconcile_items(pre, request_id as int, rv));
            assert forall|j: int| 0 <= j < self.items().len() implies match #[trigger] self
                .items()[j].outcome {
                OutcomeView::WaitingForResponse(id) => 0 <= id < self.request_counter(),
                _ => true,
            } by {
                if pre[j].outcome == OutcomeView::WaitingForResponse(request_id as int) {
                    assert(self.items()[j].outcome == reconciled_outcome(pre[j].file.name, rv));
                } else {
                    assert(self.items()[j] == pre[j]);
                }
            }
        }
    }

    /// Starts one archive upload of the item named `name`: records the item
    /// in the "currently uploading" set and hands back what the exchange
    /// carries — the image, the best-guess label, and the item's current
    /// state. An unknown name (e.g. an item deleted since the view was
    /// rendered) starts nothing. The item's lifecycle state is not touched;
    /// a second upload of the same name may run concurrently.
    pub fn start_upload(&mut self, name: &String) -> (job: Option<UploadJob>)
        requires
            old(self).wf(),
        ensures
            final(self).wf(),
            final(self).items() == old(self).items(),
            final(self).request_counter() == old(self).request_counter(),
            final(self).batch_limit() == old(self).batch_limit(),
            final(self).notes() == old(self).notes(),
            contains_name(old(self).items(), name@) ==> {
                &&& job matches Some(j) && j@ == upload_job_for(
                    old(self).items()[find_index(old(self).items(), name@)],
                )
                &&& final(self).uploading_names() == old(self).uploading_names().push(name@)
            },
            !contains_name(old(self).items(), name@) ==> job is None && final(self)
                .uploading_names() == old(self).uploading_names(),
    {
        let ghost pre_up = names_view(self.uploading@);
        match self.store.find_by_name(name) {
            Option::None => Option::None,
            Option::Some(i) => {
                let it = self.store.get(i);
                let job = UploadJob {
                    details: it.data.clone(),
                    label: upload_label(&it.outcome),
                    outcome: it.outcome.clone(),
                };
                self.uploading.push(name.clone());
                proof {
                    assert(names_view(self.uploading@) =~= pre_up.push(name@));
                }
                Option::Some(job)
            },
        }
    }

    /// Starts one independent upload per tracked item, in store order — the
    /// "upload all" fan-out. No batching: each returned job is one exchange.
    pub fn start_upload_all(&mut self) -> (jobs: Vec<UploadJob>)
        requires
            old(self).wf(),
        ensures
            final(self).wf(),
            final(self).items() == old(self).items(),
            final(self).request_counter() == old(self).request_counter(),
            final(self).batch_limit() == old(self).batch_limit(),
            final(self).notes() == old(self).notes(),
            jobs@.len() == old(self).items().len(),
            forall|i: int|
                0 <= i < jobs@.len() ==> #[trigger] jobs@[i]@ == upload_job_for(
                    old(self).items()[i],
                ),
            final(self).uploading_names() == old(self).uploading_names() + Seq::new(
                old(self).items().len(),
                |i: int| old(self).items()[i].file.name,
            ),
    {
        let ghost orig = *self;
        let ghost pre = self.store@;
        let ghost pre_up = names_view(self.uploading@);
        let mut jobs: Vec<UploadJob> = Vec::new();
        let n = self.store.len();
        let mut i: usize = 0;
        proof {
            assert(names_view(self.uploading@) =~= pre_up + Seq::new(
                0,
                |j: int| pre[j].file.name,
            ));
        }
        while i < n
            invariant
                orig.wf(),
                self.store == orig.store,
                self.requests_sent == orig.requests_sent,
                self.batch_size == orig.batch_size,
                self.notifications == orig.notifications,
                n == self.store@.len(),
                pre == self.store@,
                i <= n,
                jobs@.len() == i,
                forall|j: int| 0 <= j < i ==> #[trigger] jobs@[j]@ == upload_job_for(pre[j]),
                names_view(self.uploading@) == pre_up + Seq::new(
                    i as nat,
                    |j: int| pre[j].file.name,
                ),
            decreases n - i,
        {
            let ghost up_before = names_view(self.uploading@);
            let it = self.store.get(i);
            let job = UploadJob {
                details: it.data.clone(),
                label: upload_label(&it.outcome),
                outcome: it.outcome.clone(),
            };
            let item_name = it.data.name.clone();
            jobs.push(job);
            self.uploading.push(item_name);
            proof {
                assert(names_view(self.uploading@) =~= up_before.push(pre[i as int].file.name));
                assert(names_view(self.uploading@) =~= pre_up + Seq::new(
                    (i + 1) as nat,
                    |j: int| pre[j].file.name,
                ));
            }
            i += 1;
        }
        jobs
    }

    /// Ends one archive upload of the item named `name`: takes the name out
    /// of the "currently uploading" set and appends exactly one notification
    /// — success, or failure with the carried message. The item's lifecycle
    /// state is never altered by an upload.
    pub fn finish_upload(&mut self, name: String, result: Result<(), String>)
        requires
            old(self).wf(),
        ensures
            final(self).wf(),
            final(self).items() == old(self).items(),
            final(self).request_counter() == old(self).request_counter(),
            final(self).batch_limit() == old(self).batch_limit(),
            final(self).uploading_names() == without_name(old(self).uploading_names(), name@),
            final(self).notes() == old(self).notes().push(
                NotificationView {
                    severity: if result matches Ok(_) {
                        Severity::Success
                    } else {
                        Severity::Failure
                    },
                    item_name: name@,
                    detail: match result {
                        Result::Ok(_) => Seq::<char>::empty(),
                        Result::Err(why) => why@,
                    },
                    dismissed: false,
                },
            ),
    {
        let ghost pre_names = names_view(self.uploading@);
        let mut kept: Vec<String> = Vec::new();
        let n = self.uploading.len();
        let mut i: usize = 0;
        proof {
            assert(pre_names.skip(0) =~= pre_names);
            assert(names_view(kept@) + without_name(pre_names, name@) =~= without_name(pre_names, name@));
        }
        while i < n
            invariant
                n == self.uploading@.len(),
                pre_names == names_view(self.uploading@),
                i <= n,
                names_view(kept@) + without_name(pre_names.skip(i as int), name@) == without_name(
                    pre_names,
                    name@,
                ),
            decreases n - i,
        {
            proof {
                assert(pre_names.skip(i as int)[0] == pre_names[i as int]);
                assert(pre_names.skip(i as int).skip(1) =~= pre_names.skip(i as int + 1));
            }
            let ghost kept_before = names_view(kept@);
            if self.uploading[i] == name {
            } else {
                kept.push(self.uploading[i].clone());
                proof {
                    assert(names_view(kept@) =~= kept_before.push(pre_names[i as int]));
                    assert(names_view(kept@) + without_name(pre_names.skip(i as int + 1), name@)
                        =~= kept_before + (seq![pre_names[i as int]] + without_name(
                        pre_names.skip(i as int + 1),
                        name@,
                    )));
                }
            }
            i += 1;
        }
        proof {
            assert(pre_names.skip(n as int) =~= Seq::<Seq<char>>::empty());
            assert(names_view(kept@) + without_name(pre_names.skip(n as int), name@) =~= names_view(
                kept@,
            ));
        }
        self.uploading = kept;
        let severity = match &result {
            Result::Ok(_) => Severity::Success,
            Result::Err(_) => Severity::Failure,
        };
        let detail = match result {
            Result::Ok(_) => String::new(),
            Result::Err(why) => why,
        };
        self.notifications.append_note(severity, name, detail);
    }

    /// Marks the notification at position `i` dismissed. By design the log
    /// never shrinks: the notification stays in the log and in its count.
    pub fn dismiss(&mut self, i: usize) -> (found: bool)
        requires
            old(self).wf(),
        ensures
            final(self).wf(),
            final(self).items() == old(self).items(),
            final(self).request_counter() == old(self).request_counter(),
            final(self).batch_limit() == old(self).batch_limit(),
            final(self).uploading_names() == old(self).uploading_names(),
            final(self).notes().len() == old(self).notes().len(),
            found == (i < old(self).notes().len()),
            found ==> final(self).notes() == old(self).notes().update(
                i as int,
                NotificationView { dismissed: true, ..old(self).notes()[i as int] },
            ),
            !found ==> final(self).notes() == old(self).notes(),
    {
        self.notifications.dismiss(i)
    }

    /// How many items are tracked.
    pub fn item_count(&self) -> (n: usize)
        ensures
            n == self.items().len(),
    {
        self.store.len()
    }

    /// Read-only view of all tracked items, in store order, for rendering.
    pub fn list_items(&self) -> (r: &Vec<ImageAnalysisStatus>)
        ensures
            items_view(r@) == self.items(),
    {
        self.store.snapshot()
    }

    /// How many request ids were assigned so far.
    pub fn request_count(&self) -> (n: usize)
        ensures
            n as int == self.request_counter(),
    {
        self.requests_sent
    }

    /// How many uploads are currently running.
    pub fn uploading_count(&self) -> (n: usize)
        ensures
            n as int == self.uploading_names().len(),
    {
        self.uploading.len()
    }

    /// Read-only view of the notification log, oldest first; dismissed
    /// notifications are included.
    pub fn list_notifications(&self) -> (r: &Vec<Notification>)
        ensures
            r@.map_values(|x: Notification| x@) == self.notes(),
    {
        self.notifications.snapshot()
    }

    /// How many notifications were ever logged; dismissal never lowers this.
    pub fn notification_count(&self) -> (n: usize)
        ensures
            n == self.notes().len(),
    {
        self.notifications.len()
    }
}

} // verus!
