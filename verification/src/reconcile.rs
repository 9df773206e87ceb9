//! Reconciliation: matching the response (or failure) of one analysis
//! exchange back onto exactly the items of that exchange's batch, by name.

use vstd::prelude::*;
use vstd::string::StringExecFns;

use crate::item::{ImageAnalysisData, ItemView, OutcomeView};

verus! {

/// One entry of a parsed analysis response: the results the remote service
/// reported for the item of this name.
#[derive(Debug, PartialEq)]
pub struct ResponseEntry {
    pub name: String,
    pub data: ImageAnalysisData,
}

impl View for ResponseEntry {
    type V = (Seq<char>, Seq<(Seq<char>, u64)>);

    open spec fn view(&self) -> (Seq<char>, Seq<(Seq<char>, u64)>) {
        (self.name@, self.data@)
    }
}

/// A parsed analysis response: name/result pairs for whichever items the
/// service chose to honor.
pub type AnalysisResponse = Vec<ResponseEntry>;

/// The entries of a response as their mathematical images, in order.
pub open spec fn response_entries_view(entries: Seq<ResponseEntry>) -> Seq<
    (Seq<char>, Seq<(Seq<char>, u64)>),
> {
    entries.map_values(|e: ResponseEntry| e@)
}

/// What one exchange handed back: the parsed entries, or the message of a
/// transport or parse failure.
pub open spec fn response_view(data: Result<AnalysisResponse, String>) -> Result<
    Seq<(Seq<char>, Seq<(Seq<char>, u64)>)>,
    Seq<char>,
> {
    match data {
        Result::Ok(entries) => Result::Ok(response_entries_view(entries@)),
        Result::Err(why) => Result::Err(why@),
    }
}

/// The first result listed for `name`, if the response holds one.
pub open spec fn response_lookup(
    entries: Seq<(Seq<char>, Seq<(Seq<char>, u64)>)>,
    name: Seq<char>,
) -> Option<Seq<(Seq<char>, u64)>>
    decreases entries.len(),
{
    if entries.len() == 0 {
        Option::None
    } else if entries[0].0 == name {
        Option::Some(entries[0].1)
    } else {
        response_lookup(entries.skip(1), name)
    }
}

/// The message put on an item that an otherwise successful batch response
/// left out: a partially honored batch is a per-item failure, not a batch
/// failure.
pub open spec fn ignored_message() -> Seq<char> {
    "Server seems to have ignored the provided image?!"@
}

/// The state an item named `name` moves to when the response for its batch
/// arrives: the whole exchange failed — the failure message; the item's name
/// was honored — analyzed with the reported result; the name was left out —
/// the "ignored" error.
pub open spec fn reconciled_outcome(
    name: Seq<char>,
    resp: Result<Seq<(Seq<char>, Seq<(Seq<char>, u64)>)>, Seq<char>>,
) -> OutcomeView {
    match resp {
        Result::Err(why) => OutcomeView::Error(why),
        Result::Ok(entries) => match response_lookup(entries, name) {
            Option::Some(d) => OutcomeView::Analyzed(d),
            Option::None => OutcomeView::Error(ignored_message()),
        },
    }
}

/// All items after the response `resp` to request `rid` is reconciled onto a
/// store: exactly the items still awaiting `rid` move, each as
/// [`reconciled_outcome`] says; every other item — including any the user
/// deleted and re-added meanwhile — stays exactly as it was.
pub open spec fn reconcile_items(
    s: Seq<ItemView>,
    rid: int,
    resp: Result<Seq<(Seq<char>, Seq<(Seq<char>, u64)>)>, Seq<char>>,
) -> Seq<ItemView> {
    Seq::new(
        s.len(),
        |i: int|
            if s[i].outcome == OutcomeView::WaitingForResponse(rid) {
                ItemView { file: s[i].file, outcome: reconciled_outcome(s[i].file.name, resp) }
            } else {
                s[i]
            },
    )
}

/// Finds the first result listed for `name` in a parsed response.
pub fn find_entry<'a>(entries: &'a AnalysisResponse, name: &String) -> (r: Option<
    &'a ImageAnalysisData,
>)
    ensures
        match r {
            Option::Some(d) => response_lookup(response_entries_view(entries@), name@)
                == Option::Some(d@),
            Option::None => response_lookup(response_entries_view(entries@), name@)
                == Option::<Seq<(Seq<char>, u64)>>::None,
        },
{
    let ghost ev = response_entries_view(entries@);
    proof {
        assert(ev.skip(0) =~= ev);
    }
    let n = entries.len();
    let mut i: usize = 0;
    while i < n
        invariant
            n == entries@.len(),
            ev == response_entries_view(entries@),
            ev.len() == n,
            i <= n,
            response_lookup(ev.skip(i as int), name@) == response_lookup(ev, name@),
        decreases n - i,
    {
        proof {
            assert(ev.skip(i as int)[0] == ev[i as int]);
            assert(ev.skip(i as int).skip(1) =~= ev.skip(i as int + 1));
        }
        if entries[i].name == *name {
            return Some(&entries[i].data);
        }
        i += 1;
    }
    proof {
        assert(ev.skip(n as int) =~= Seq::<(Seq<char>, Seq<(Seq<char>, u64)>)>::empty());
    }
    None
}

/// Builds the error message for an item a successful response left out.
pub fn ignored_message_text() -> (r: String)
    ensures
        r@ == ignored_message(),
{
    let mut s = String::new();
    s.append("Server seems to have ignored the provided image?!");
    proof {
        assert(s@ =~= ignored_message());
    }
    s
}

} // verus!
