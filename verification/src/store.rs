//! The Item Store: the ordered collection of tracked items. Exactly one item
//! per name is held at any time; deleting and re-adding a name is allowed,
//! duplicates are rejected.

use vstd::prelude::*;

use crate::item::{FileDetails, ImageAnalysisOutcome, ImageAnalysisStatus, ItemView, OutcomeView};

verus! {

/// The items of a store as their mathematical images, in store order.
pub open spec fn items_view(items: Seq<ImageAnalysisStatus>) -> Seq<ItemView> {
    items.map_values(|it: ImageAnalysisStatus| it@)
}

/// No two items carry the same name.
pub open spec fn names_unique(s: Seq<ItemView>) -> bool {
    forall|i: int, j: int| 0 <= i < j < s.len() ==> s[i].file.name != s[j].file.name
}

/// Some item in `s` is named `name`.
pub open spec fn contains_name(s: Seq<ItemView>, name: Seq<char>) -> bool {
    exists|i: int| 0 <= i < s.len() && s[i].file.name == name
}

/// Index of the first item in `s` named `name`, or -1 when there is none.
pub open spec fn find_index(s: Seq<ItemView>, name: Seq<char>) -> int
    decreases s.len(),
{
    if s.len() == 0 {
        -1
    } else if s[0].file.name == name {
        0
    } else {
        let r = find_index(s.skip(1), name);
        if r < 0 {
            -1
        } else {
            r + 1
        }
    }
}

/// `find_index` finds the first occurrence of a name, and only fails when
/// the name is absent.
pub proof fn lemma_find_index(s: Seq<ItemView>, name: Seq<char>)
    ensures
        contains_name(s, name) ==> {
            let r = find_index(s, name);
            &&& 0 <= r < s.len()
            &&& s[r].file.name == name
            &&& forall|j: int| 0 <= j < r ==> s[j].file.name != name
        },
        !contains_name(s, name) ==> find_index(s, name) == -1,
    decreases s.len(),
{
    if s.len() == 0 {
    } else if s[0].file.name == name {
    } else {
        lemma_find_index(s.skip(1), name);
        assert forall|i: int| 0 <= i < s.len() && s[i].file.name == name implies contains_name(
            s.skip(1),
            name,
        ) by {
            assert(s.skip(1)[i - 1] == s[i]);
        }
        if contains_name(s.skip(1), name) {
            let r = find_index(s.skip(1), name);
            assert(s[r + 1] == s.skip(1)[r]);
            assert forall|j: int| 0 <= j < r + 1 implies s[j].file.name != name by {
                if j > 0 {
                    assert(s.skip(1)[j - 1] == s[j]);
                }
            }
        }
    }
}

/// The first match decides `find_index`: a name found at `k`, with no
/// earlier occurrence, is found there.
pub proof fn lemma_find_index_first(s: Seq<ItemView>, name: Seq<char>, k: int)
    requires
        0 <= k < s.len(),
        s[k].file.name == name,
        forall|j: int| 0 <= j < k ==> s[j].file.name != name,
    ensures
        find_index(s, name) == k,
    decreases s.len(),
{
    if k == 0 {
    } else {
        assert(s.skip(1)[k - 1] == s[k]);
        assert forall|j: int| 0 <= j < k - 1 implies s.skip(1)[j].file.name != name by {
            assert(s.skip(1)[j] == s[j + 1]);
        }
        lemma_find_index_first(s.skip(1), name, k - 1);
    }
}

/// Store of tracked items. The well-formedness invariant [`ItemStore::wf`]
/// says that item names are unique; every operation preserves it.
pub struct ItemStore {
    items: Vec<ImageAnalysisStatus>,
}

impl View for ItemStore {
    type V = Seq<ItemView>;

    closed spec fn view(&self) -> Seq<ItemView> {
        items_view(self.items@)
    }
}

impl ItemStore {
    /// Every item name maps to at most one item in the store.
    pub open spec fn wf(self) -> bool {
        names_unique(self@)
    }

    /// An empty store.
    pub fn new() -> (s: Self)
        ensures
            s@ =~= Seq::<ItemView>::empty(),
            s.wf(),
    {
        ItemStore { items: Vec::new() }
    }

    /// How many items the store holds.
    pub fn len(&self) -> (n: usize)
        ensures
            n == self@.len(),
    {
        self.items.len()
    }

    /// The item at position `i`, in store order.
    pub fn get(&self, i: usize) -> (it: &ImageAnalysisStatus)
        requires
            i < self@.len(),
        ensures
            it@ == self@[i as int],
    {
        &self.items[i]
    }

    /// Read-only view of all items, in store order, for rendering.
    pub fn snapshot(&self) -> (r: &Vec<ImageAnalysisStatus>)
        ensures
            items_view(r@) == self@,
    {
        &self.items
    }

    /// Position of the item named `name`, if the store holds one.
    pub fn find_by_name(&self, name: &String) -> (r: Option<usize>)
        ensures
            match r {
                Some(i) => i < self@.len() && i as int == find_index(self@, name@)
                    && self@[i as int].file.name == name@,
                None => !contains_name(self@, name@),
            },
    {
        let n = self.items.len();
        let mut i: usize = 0;
        while i < n
            invariant
                n == self@.len(),
                i <= n,
                forall|j: int| 0 <= j < i ==> self@[j].file.name != name@,
            decreases n - i,
        {
            if self.items[i].data.name == *name {
                proof {
                    lemma_find_index_first(self@, name@, i as int);
                }
                return Some(i);
            }
            i += 1;
        }
        None
    }

    /// Adds a freshly captured item in state `WaitingToSend`. Rejected (and
    /// the store left unchanged) when an item of the same name is already
    /// tracked, so that names stay unique for every sequence of submissions.
    pub fn add(&mut self, file: FileDetails) -> (added: bool)
        requires
            old(self).wf(),
        ensures
            final(self).wf(),
            added == !contains_name(old(self)@, file@.name),
            added ==> final(self)@ == old(self)@.push(
                ItemView { file: file@, outcome: OutcomeView::WaitingToSend },
            ),
            !added ==> final(self)@ == old(self)@,
    {
        if self.find_by_name(&file.name).is_some() {
            return false;
        }
        let ghost pre = self@;
        self.items.push(
            ImageAnalysisStatus { data: file, outcome: ImageAnalysisOutcome::WaitingToSend },
        );
        proof {
            assert(self@ =~= pre.push(self.items@[pre.len() as int]@));
        }
        true
    }

    /// Removes the item named `name`, if the store holds one.
    pub fn remove_by_name(&mut self, name: &String) -> (removed: bool)
        requires
            old(self).wf(),
        ensures
            final(self).wf(),
            removed == contains_name(old(self)@, name@),
            removed ==> final(self)@ == old(self)@.remove(find_index(old(self)@, name@)),
            !removed ==> final(self)@ == old(self)@,
    {
        match self.find_by_name(name) {
            None => false,
            Some(i) => {
                let ghost pre = self@;
                self.items.remove(i);
                proof {
                    assert(self@ =~= pre.remove(i as int));
                }
                true
            },
        }
    }

    /// Moves the item at position `i` to a new lifecycle state; nothing else
    /// about the store changes.
    pub fn transition(&mut self, i: usize, outcome: ImageAnalysisOutcome)
        requires
            old(self).wf(),
            i < old(self)@.len(),
        ensures
            final(self).wf(),
            final(self)@ == old(self)@.update(
                i as int,
                ItemView { file: old(self)@[i as int].file, outcome: outcome@ },
            ),
    {
        let ghost pre = self@;
        let it = &mut self.items[i];
        it.outcome = outcome;
        proof {
            assert(self@ =~= pre.update(
                i as int,
                ItemView { file: pre[i as int].file, outcome: outcome@ },
            ));
        }
    }
}

} // verus!
