//! "Show desktop": minimize every window that is showing, then bring back
//! exactly those windows and give the focus back to the one that had it.

use vstd::prelude::*;
use crate::registry::{has_id, RecordView, WindowRecord};

verus! {

/// A request that the caller sends on the toplevel with this identity.
#[derive(Debug)]
pub enum WindowRequest {
    Minimize(String),
    Unminimize(String),
    Activate(String),
}

/// The value of a [`WindowRequest`].
pub ghost enum RequestView {
    Minimize(Seq<char>),
    Unminimize(Seq<char>),
    Activate(Seq<char>),
}

impl View for WindowRequest {
    type V = RequestView;

    open spec fn view(&self) -> RequestView {
        match self {
            WindowRequest::Minimize(id) => RequestView::Minimize(id@),
            WindowRequest::Unminimize(id) => RequestView::Unminimize(id@),
            WindowRequest::Activate(id) => RequestView::Activate(id@),
        }
    }
}

pub open spec fn request_views(v: Seq<WindowRequest>) -> Seq<RequestView> {
    v.map_values(|r: WindowRequest| r@)
}

pub open spec fn record_views(v: Seq<WindowRecord>) -> Seq<RecordView> {
    v.map_values(|w: WindowRecord| w@)
}

/// One window that "show desktop" minimized: its identity, and whether it
/// had the focus.
pub type StackEntry = (Seq<char>, bool);

/// The windows that are not minimized, in order, each with its focus flag.
pub open spec fn captured(ws: Seq<RecordView>) -> Seq<StackEntry>
    decreases ws.len(),
{
    if ws.len() == 0 {
        Seq::empty()
    } else {
        let p = captured(ws.drop_last());
        if !ws.last().minimized {
            p.push((ws.last().id, ws.last().activated))
        } else {
            p
        }
    }
}

/// The entries whose window still exists.
pub open spec fn still_present(stack: Seq<StackEntry>, ws: Seq<RecordView>) -> Seq<StackEntry>
    decreases stack.len(),
{
    if stack.len() == 0 {
        Seq::empty()
    } else {
        let p = still_present(stack.drop_last(), ws);
        if has_id(ws, stack.last().0) {
            p.push(stack.last())
        } else {
            p
        }
    }
}

/// The last entry that had the focus.
pub open spec fn last_active(stack: Seq<StackEntry>) -> Option<Seq<char>>
    decreases stack.len(),
{
    if stack.len() == 0 {
        None
    } else if stack.last().1 {
        Some(stack.last().0)
    } else {
        last_active(stack.drop_last())
    }
}

/// The requests that minimize the captured windows.
pub open spec fn minimize_requests(stack: Seq<StackEntry>) -> Seq<RequestView> {
    stack.map_values(|e: StackEntry| RequestView::Minimize(e.0))
}

/// The requests that bring back these entries, then focus the one that had it.
pub open spec fn restore_requests(entries: Seq<StackEntry>) -> Seq<RequestView> {
    entries.map_values(|e: StackEntry| RequestView::Unminimize(e.0)) + match last_active(
        entries,
    ) {
        Some(id) => seq![RequestView::Activate(id)],
        None => Seq::empty(),
    }
}

/// Whether the desktop is being shown, and what was minimized to show it.
pub struct ShowDesktop {
    shown: bool,
    stack: Vec<(String, bool)>,
}

/// The value of a [`ShowDesktop`].
pub ghost struct ShowDesktopView {
    pub shown: bool,
    pub stack: Seq<StackEntry>,
}

impl View for ShowDesktop {
    type V = ShowDesktopView;

    closed spec fn view(&self) -> ShowDesktopView {
        ShowDesktopView {
            shown: self.shown,
            stack: self.stack@.map_values(|e: (String, bool)| (e.0@, e.1)),
        }
    }
}

impl ShowDesktop {
    pub fn new() -> (r: ShowDesktop)
        ensures
            !r@.shown,
            r@.stack == Seq::<StackEntry>::empty(),
    {
        let r = ShowDesktop { shown: false, stack: Vec::new() };
        assert(r@.stack =~= Seq::<StackEntry>::empty());
        r
    }

    pub fn is_shown(&self) -> (r: bool)
        ensures
            r == self@.shown,
    {
        self.shown
    }

    /// A click on "show desktop". The first minimizes every window that is
    /// showing and remembers each with its focus flag; the next restores the
    /// remembered windows that still exist and focuses the last of them that
    /// had the focus.
    pub fn toggle(&mut self, windows: &Vec<WindowRecord>) -> (r: Vec<WindowRequest>)
        ensures
            !old(self)@.shown ==> {
                &&& final(self)@.shown
                &&& final(self)@.stack == captured(record_views(windows@))
                &&& request_views(r@) == minimize_requests(final(self)@.stack)
            },
            old(self)@.shown ==> {
                &&& !final(self)@.shown
                &&& final(self)@.stack == Seq::<StackEntry>::empty()
                &&& request_views(r@) == restore_requests(
                    still_present(old(self)@.stack, record_views(windows@)),
                )
            },
    {
        if !self.shown {
            let r = self.minimize_all(windows);
            self.shown = true;
            r
        } else {
            let r = self.restore_all(windows);
            self.stack = Vec::new();
            self.shown = false;
            assert(self@.stack =~= Seq::<StackEntry>::empty());
            r
        }
    }

    fn minimize_all(&mut self, windows: &Vec<WindowRecord>) -> (r: Vec<WindowRequest>)
        ensures
            final(self).shown == old(self).shown,
            final(self)@.stack == captured(record_views(windows@)),
            request_views(r@) == minimize_requests(final(self)@.stack),
    {
        let ghost ws = record_views(windows@);
        let mut stack: Vec<(String, bool)> = Vec::new();
        let mut reqs: Vec<WindowRequest> = Vec::new();
        let n = windows.len();
        let mut i: usize = 0;
        while i < n
            invariant
                n == windows@.len(),
                ws == record_views(windows@),
                i <= n,
                stack@.map_values(|e: (String, bool)| (e.0@, e.1)) == captured(ws.take(i as int)),
                request_views(reqs@) == minimize_requests(captured(ws.take(i as int))),
            decreases n - i,
        {
            let ghost st = stack@.map_values(|e: (String, bool)| (e.0@, e.1));
            let ghost rq = request_views(reqs@);
            assert(ws.take(i + 1).drop_last() =~= ws.take(i as int));
            assert(ws.take(i + 1).last() == windows@[i as int]@);
            let w = &windows[i];
            if !w.minimized {
                stack.push((w.id.clone(), w.activated));
                reqs.push(WindowRequest::Minimize(w.id.clone()));
                assert(stack@.map_values(|e: (String, bool)| (e.0@, e.1)) =~= st.push(
                    (w.id@, w.activated),
                ));
                assert(request_views(reqs@) =~= rq.push(RequestView::Minimize(w.id@)));
                assert(minimize_requests(captured(ws.take(i + 1))) =~= minimize_requests(
                    captured(ws.take(i as int)),
                ).push(RequestView::Minimize(w.id@)));
            }
            i = i + 1;
        }
        assert(ws.take(n as int) =~= ws);
        self.stack = stack;
        reqs
    }

    fn restore_all(&self, windows: &Vec<WindowRecord>) -> (r: Vec<WindowRequest>)
        ensures
            request_views(r@) == restore_requests(
                still_present(self@.stack, record_views(windows@)),
            ),
    {
        let ghost ws = record_views(windows@);
        let ghost st = self@.stack;
        let mut unmin: Vec<WindowRequest> = Vec::new();
        let mut active: Option<String> = None;
        let n = self.stack.len();
        let mut i: usize = 0;
        while i < n
            invariant
                n == st.len(),
                st == self@.stack,
                ws == record_views(windows@),
                i <= n,
                request_views(unmin@) == still_present(st.take(i as int), ws).map_values(
                    |e: StackEntry| RequestView::Unminimize(e.0),
                ),
                match active {
                    Some(a) => last_active(still_present(st.take(i as int), ws)) == Some(a@),
                    None => last_active(still_present(st.take(i as int), ws)) is None,
                },
            decreases n - i,
        {
            let ghost rq = request_views(unmin@);
            let ghost sp = still_present(st.take(i as int), ws);
            assert(st.take(i + 1).drop_last() =~= st.take(i as int));
            assert(st.take(i + 1).last() == st[i as int]);
            let id = &self.stack[i].0;
            let was_active = self.stack[i].1;
            if present(windows, id) {
                unmin.push(WindowRequest::Unminimize(id.clone()));
                assert(request_views(unmin@) =~= rq.push(RequestView::Unminimize(id@)));
                assert(still_present(st.take(i + 1), ws) == sp.push(st[i as int]));
                assert(sp.push(st[i as int]).drop_last() =~= sp);
                assert(still_present(st.take(i + 1), ws).map_values(
                    |e: StackEntry| RequestView::Unminimize(e.0),
                ) =~= sp.map_values(|e: StackEntry| RequestView::Unminimize(e.0)).push(
                    RequestView::Unminimize(id@),
                ));
                if was_active {
                    active = Some(id.clone());
                }
            }
            i = i + 1;
        }
        assert(st.take(n as int) =~= st);
        let ghost rq = request_views(unmin@);
        match active {
            Some(a) => {
                let ghost av = a@;
                unmin.push(WindowRequest::Activate(a));
                assert(request_views(unmin@) =~= rq + seq![RequestView::Activate(av)]);
            },
            None => {
                assert(rq =~= rq + Seq::<RequestView>::empty());
            },
        }
        unmin
    }
}

/// Whether a record with this identity is among the windows.
pub fn present(windows: &Vec<WindowRecord>, id: &String) -> (r: bool)
    ensures
        r == has_id(record_views(windows@), id@),
{
    let ghost ws = record_views(windows@);
    let n = windows.len();
    let mut i: usize = 0;
    while i < n
        invariant
            n == windows@.len(),
            ws == record_views(windows@),
            i <= n,
            forall|j: int| 0 <= j < i ==> ws[j].id != id@,
        decreases n - i,
    {
        if windows[i].id == *id {
            assert(ws[i as int].id == id@);
            return true;
        }
        i = i + 1;
    }
    false
}

/// Every entry that the capture takes is a window that is there.
pub proof fn lemma_captured_present(ws: Seq<RecordView>)
    ensures
        forall|k: int|
            0 <= k < captured(ws).len() ==> has_id(ws, (#[trigger] captured(ws)[k]).0),
    decreases ws.len(),
{
    if ws.len() > 0 {
        let t = ws.drop_last();
        lemma_captured_present(t);
        assert forall|k: int| 0 <= k < captured(ws).len() implies has_id(
            ws,
            (#[trigger] captured(ws)[k]).0,
        ) by {
            if k < captured(t).len() {
                assert(has_id(t, captured(t)[k].0));
                let j = choose|j: int| 0 <= j < t.len() && t[j].id == captured(t)[k].0;
                assert(ws[j] == t[j]);
            } else {
                assert(ws[ws.len() - 1].id == captured(ws)[k].0);
            }
        }
    }
}

/// Entries whose windows are all present are all kept.
pub proof fn lemma_still_present_all(stack: Seq<StackEntry>, ws: Seq<RecordView>)
    requires
        forall|k: int| 0 <= k < stack.len() ==> has_id(ws, (#[trigger] stack[k]).0),
    ensures
        still_present(stack, ws) == stack,
    decreases stack.len(),
{
    if stack.len() > 0 {
        let t = stack.drop_last();
        assert forall|k: int| 0 <= k < t.len() implies has_id(ws, (#[trigger] t[k]).0) by {
            assert(t[k] == stack[k]);
        }
        lemma_still_present_all(t, ws);
        assert(has_id(ws, stack[stack.len() - 1].0));
        assert(t.push(stack.last()) =~= stack);
    }
}

/// The window that the restore focuses was captured with the focus.
pub proof fn lemma_last_active_was_active(stack: Seq<StackEntry>)
    ensures
        last_active(stack) matches Some(id) ==> exists|k: int|
            0 <= k < stack.len() && stack[k] == (id, true),
    decreases stack.len(),
{
    if stack.len() > 0 && !stack.last().1 {
        let t = stack.drop_last();
        lemma_last_active_was_active(t);
        if let Some(id) = last_active(t) {
            let k = choose|k: int| 0 <= k < t.len() && t[k] == (id, true);
            assert(stack[k] == t[k]);
        }
    } else if stack.len() > 0 {
        assert(stack[stack.len() - 1] == (stack.last().0, true));
    }
}

/// "Show desktop" then "restore" with no window gone in between: every
/// captured window is still there, so the restore brings back exactly the
/// captured windows, and it focuses only a window that was captured with the
/// focus.
pub proof fn lemma_show_then_restore(ws: Seq<RecordView>)
    ensures
        forall|k: int|
            0 <= k < captured(ws).len() ==> has_id(ws, (#[trigger] captured(ws)[k]).0),
        restore_requests(still_present(captured(ws), ws)) == restore_requests(captured(ws)),
        last_active(captured(ws)) matches Some(id) ==> exists|k: int|
            0 <= k < captured(ws).len() && captured(ws)[k] == (id, true),
{
    lemma_captured_present(ws);
    lemma_still_present_all(captured(ws), ws);
    lemma_last_active_was_active(captured(ws));
}

} // verus!
