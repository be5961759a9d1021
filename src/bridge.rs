//! What the dispatch thread tells the UI thread, and how the UI thread folds
//! a burst of notifications before it redraws.

use vstd::prelude::*;

verus! {

/// A notification for the UI thread. `Refresh` carries nothing: the reader
/// takes a fresh snapshot of the registry. A layout change carries the short
/// code of the layout now active.
#[derive(Debug)]
pub enum UiEvent {
    Refresh,
    KeyboardLayout(String),
}

/// The events with each run of consecutive refreshes folded into one.
pub open spec fn coalesced(evs: Seq<UiEvent>) -> Seq<UiEvent>
    decreases evs.len(),
{
    if evs.len() == 0 {
        Seq::empty()
    } else {
        let p = coalesced(evs.drop_last());
        if evs.last() is Refresh && p.len() > 0 && p.last() is Refresh {
            p
        } else {
            p.push(evs.last())
        }
    }
}

/// The layout codes that the events carry, in order.
pub open spec fn layout_codes(evs: Seq<UiEvent>) -> Seq<Seq<char>>
    decreases evs.len(),
{
    if evs.len() == 0 {
        Seq::empty()
    } else {
        let p = layout_codes(evs.drop_last());
        match evs.last() {
            UiEvent::KeyboardLayout(c) => p.push(c@),
            UiEvent::Refresh => p,
        }
    }
}

/// Folds the events that arrived since the last redraw.
pub fn coalesce(evs: &Vec<UiEvent>) -> (r: Vec<UiEvent>)
    ensures
        r@ == coalesced(evs@),
{
    let mut out: Vec<UiEvent> = Vec::new();
    let n = evs.len();
    let mut i: usize = 0;
    while i < n
        invariant
            n == evs@.len(),
            i <= n,
            out@ == coalesced(evs@.take(i as int)),
        decreases n - i,
    {
        let ghost before = out@;
        assert(evs@.take(i + 1).drop_last() =~= evs@.take(i as int));
        assert(evs@.take(i + 1).last() == evs@[i as int]);
        let last_is_refresh = out.len() > 0 && match &out[out.len() - 1] {
            UiEvent::Refresh => true,
            UiEvent::KeyboardLayout(_) => false,
        };
        match &evs[i] {
            UiEvent::Refresh => {
                if !last_is_refresh {
                    out.push(UiEvent::Refresh);
                    assert(out@ =~= before.push(evs@[i as int]));
                }
            },
            UiEvent::KeyboardLayout(c) => {
                out.push(UiEvent::KeyboardLayout(c.clone()));
                assert(out@ =~= before.push(evs@[i as int]));
            },
        }
        i = i + 1;
    }
    assert(evs@.take(n as int) =~= evs@);
    out
}

/// Folding loses nothing that matters: every layout code is kept, in order;
/// the last event is kept, so a burst that ends in a refresh still ends in
/// one; and no two refreshes are left side by side.
pub proof fn lemma_coalesce_keeps_what_matters(evs: Seq<UiEvent>)
    ensures
        layout_codes(coalesced(evs)) == layout_codes(evs),
        coalesced(evs).len() == 0 <==> evs.len() == 0,
        evs.len() > 0 ==> coalesced(evs).last() == evs.last(),
        forall|k: int|
            0 <= k < coalesced(evs).len() - 1 ==> !((#[trigger] coalesced(evs)[k]) is Refresh
                && coalesced(evs)[k + 1] is Refresh),
    decreases evs.len(),
{
    if evs.len() > 0 {
        let t = evs.drop_last();
        lemma_coalesce_keeps_what_matters(t);
        let p = coalesced(t);
        if evs.last() is Refresh && p.len() > 0 && p.last() is Refresh {
            assert(layout_codes(evs) == layout_codes(t));
        } else {
            let q = p.push(evs.last());
            assert(q.drop_last() =~= p);
            assert forall|k: int| 0 <= k < q.len() - 1 implies !((#[trigger] q[k]) is Refresh
                && q[k + 1] is Refresh) by {
                if k < p.len() - 1 {
                    assert(q[k] == p[k] && q[k + 1] == p[k + 1]);
                } else {
                    assert(q[k] == p.last());
                }
            }
        }
    }
}

} // verus!
