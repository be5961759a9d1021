//! What the taskbar shows for a snapshot of the registry, and what its
//! buttons ask of the compositor.

use vstd::prelude::*;
use crate::icons::{fix_icon_name, icon_for};
use crate::registry::{RecordView, WindowRecord};
use crate::show_desktop::{record_views, request_views, RequestView, WindowRequest};
use crate::text::{contains_string, lower_of, string_views};

verus! {

/// The button of a pinned application.
pub struct PinnedButton {
    pub app_id: String,
    pub icon: String,
    /// Some window of the application is open.
    pub running: bool,
}

/// The button of one open window whose application is not pinned.
pub struct TaskButton {
    pub id: String,
    pub icon: String,
    pub title: String,
    pub active: bool,
}

/// Some window belongs to this application.
pub open spec fn app_running(ws: Seq<RecordView>, app_id: Seq<char>) -> bool {
    exists|i: int| 0 <= i < ws.len() && ws[i].app_id == app_id
}

/// The icon of an application identity.
pub open spec fn icon_of(app_id: Seq<char>) -> Seq<char> {
    icon_for(lower_of(app_id), app_id)
}

/// The windows whose application is not pinned, in order.
pub open spec fn unpinned(ws: Seq<RecordView>, pinned: Seq<Seq<char>>) -> Seq<RecordView>
    decreases ws.len(),
{
    if ws.len() == 0 {
        Seq::empty()
    } else {
        let p = unpinned(ws.drop_last(), pinned);
        if pinned.contains(ws.last().app_id) {
            p
        } else {
            p.push(ws.last())
        }
    }
}

/// The requests that a click on a window's button makes: a focused window
/// is minimized; any other is restored and focused.
pub open spec fn click_spec(w: RecordView) -> Seq<RequestView> {
    if w.activated {
        seq![RequestView::Minimize(w.id)]
    } else {
        seq![RequestView::Unminimize(w.id), RequestView::Activate(w.id)]
    }
}

/// The position of the first window of this application.
pub open spec fn first_of_app(ws: Seq<RecordView>, app_id: Seq<char>, from: int) -> Option<int>
    decreases ws.len() - from,
{
    if from < 0 || from >= ws.len() {
        None
    } else if ws[from].app_id == app_id {
        Some(from)
    } else {
        first_of_app(ws, app_id, from + 1)
    }
}

/// A position that `first_of_app` gives holds a window of the application.
pub proof fn lemma_first_of_app_bounds(ws: Seq<RecordView>, app_id: Seq<char>, from: int)
    ensures
        first_of_app(ws, app_id, from) matches Some(i) ==> from <= i < ws.len() && ws[i].app_id
            == app_id,
    decreases ws.len() - from,
{
    if 0 <= from < ws.len() && ws[from].app_id != app_id {
        lemma_first_of_app_bounds(ws, app_id, from + 1);
    }
}

/// The identities of this application's windows, in order.
pub open spec fn ids_of_app(ws: Seq<RecordView>, app_id: Seq<char>) -> Seq<Seq<char>>
    decreases ws.len(),
{
    if ws.len() == 0 {
        Seq::empty()
    } else {
        let p = ids_of_app(ws.drop_last(), app_id);
        if ws.last().app_id == app_id {
            p.push(ws.last().id)
        } else {
            p
        }
    }
}

/// Whether some window belongs to this application.
pub fn is_running(windows: &Vec<WindowRecord>, app_id: &String) -> (r: bool)
    ensures
        r == app_running(record_views(windows@), app_id@),
{
    first_window_of_app(windows, app_id).is_some()
}

/// The position of the first window of this application.
pub fn first_window_of_app(windows: &Vec<WindowRecord>, app_id: &String) -> (r: Option<usize>)
    ensures
        match r {
            Some(i) => first_of_app(record_views(windows@), app_id@, 0) == Some(i as int) && i
                < windows@.len(),
            None => first_of_app(record_views(windows@), app_id@, 0) is None,
        },
        r is Some <==> app_running(record_views(windows@), app_id@),
{
    proof {
        lemma_first_of_app_bounds(record_views(windows@), app_id@, 0);
    }
    let ghost ws = record_views(windows@);
    let n = windows.len();
    let mut i: usize = 0;
    while i < n
        invariant
            n == ws.len(),
            ws == record_views(windows@),
            i <= n,
            first_of_app(ws, app_id@, 0) == first_of_app(ws, app_id@, i as int),
            forall|j: int| 0 <= j < i ==> ws[j].app_id != app_id@,
        decreases n - i,
    {
        if windows[i].app_id == *app_id {
            assert(ws[i as int].app_id == app_id@);
            return Some(i);
        }
        i = i + 1;
    }
    None
}

/// The buttons of the pinned applications, in the pinned order.
pub fn pinned_buttons(windows: &Vec<WindowRecord>, pinned: &Vec<String>) -> (r: Vec<PinnedButton>)
    ensures
        r@.len() == pinned@.len(),
        forall|i: int|
            0 <= i < r@.len() ==> {
                &&& (#[trigger] r@[i]).app_id@ == pinned@[i]@
                &&& r@[i].icon@ == icon_of(pinned@[i]@)
                &&& r@[i].running == app_running(record_views(windows@), pinned@[i]@)
            },
{
    let mut out: Vec<PinnedButton> = Vec::new();
    let n = pinned.len();
    let mut i: usize = 0;
    while i < n
        invariant
            n == pinned@.len(),
            i <= n,
            out@.len() == i,
            forall|k: int|
                0 <= k < i ==> {
                    &&& (#[trigger] out@[k]).app_id@ == pinned@[k]@
                    &&& out@[k].icon@ == icon_of(pinned@[k]@)
                    &&& out@[k].running == app_running(record_views(windows@), pinned@[k]@)
                },
        decreases n - i,
    {
        let a = &pinned[i];
        let b = PinnedButton {
            app_id: a.clone(),
            icon: fix_icon_name(a.as_str()),
            running: is_running(windows, a),
        };
        out.push(b);
        i = i + 1;
    }
    out
}

pub open spec fn task_button_matches(b: TaskButton, w: RecordView) -> bool {
    &&& b.id@ == w.id
    &&& b.icon@ == icon_of(w.app_id)
    &&& b.title@ == w.title
    &&& b.active == w.activated
}

/// The buttons of the open windows whose application is not pinned, in the
/// registry's order.
pub fn task_buttons(windows: &Vec<WindowRecord>, pinned: &Vec<String>) -> (r: Vec<TaskButton>)
    ensures
        r@.len() == unpinned(record_views(windows@), string_views(pinned@)).len(),
        forall|i: int|
            0 <= i < r@.len() ==> task_button_matches(
                #[trigger] r@[i],
                unpinned(record_views(windows@), string_views(pinned@))[i],
            ),
{
    let ghost ws = record_views(windows@);
    let ghost ps = string_views(pinned@);
    let mut out: Vec<TaskButton> = Vec::new();
    let n = windows.len();
    let mut i: usize = 0;
    while i < n
        invariant
            n == ws.len(),
            ws == record_views(windows@),
            ps == string_views(pinned@),
            i <= n,
            out@.len() == unpinned(ws.take(i as int), ps).len(),
            forall|k: int|
                0 <= k < out@.len() ==> task_button_matches(
                    #[trigger] out@[k],
                    unpinned(ws.take(i as int), ps)[k],
                ),
        decreases n - i,
    {
        assert(ws.take(i + 1).drop_last() =~= ws.take(i as int));
        assert(ws.take(i + 1).last() == ws[i as int]);
        let w = &windows[i];
        if !contains_string(pinned, &w.app_id) {
            let b = TaskButton {
                id: w.id.clone(),
                icon: fix_icon_name(w.app_id.as_str()),
                title: w.title.clone(),
                active: w.activated,
            };
            out.push(b);
        }
        i = i + 1;
    }
    assert(ws.take(n as int) =~= ws);
    out
}

/// The requests of a click on this window's button.
pub fn click_requests(w: &WindowRecord) -> (r: Vec<WindowRequest>)
    ensures
        request_views(r@) == click_spec(w@),
{
    let mut r: Vec<WindowRequest> = Vec::new();
    if w.activated {
        r.push(WindowRequest::Minimize(w.id.clone()));
    } else {
        r.push(WindowRequest::Unminimize(w.id.clone()));
        r.push(WindowRequest::Activate(w.id.clone()));
    }
    assert(request_views(r@) =~= click_spec(w@));
    r
}

/// The requests of a click on a pinned application's button: those of a
/// click on its first window, or `None` where no window of it is open and
/// the application is to be launched.
pub fn pinned_click(windows: &Vec<WindowRecord>, app_id: &String) -> (r: Option<
    Vec<WindowRequest>,
>)
    ensures
        match first_of_app(record_views(windows@), app_id@, 0) {
            Some(i) => r matches Some(q) && request_views(q@) == click_spec(
                record_views(windows@)[i],
            ),
            None => r is None,
        },
{
    match first_window_of_app(windows, app_id) {
        Some(i) => Some(click_requests(&windows[i])),
        None => None,
    }
}

/// The identities of this application's windows, for "close all windows".
pub fn windows_of_app(windows: &Vec<WindowRecord>, app_id: &String) -> (r: Vec<String>)
    ensures
        string_views(r@) == ids_of_app(record_views(windows@), app_id@),
{
    let ghost ws = record_views(windows@);
    let mut out: Vec<String> = Vec::new();
    let n = windows.len();
    let mut i: usize = 0;
    while i < n
        invariant
            n == ws.len(),
            ws == record_views(windows@),
            i <= n,
            string_views(out@) == ids_of_app(ws.take(i as int), app_id@),
        decreases n - i,
    {
        let ghost before = string_views(out@);
        assert(ws.take(i + 1).drop_last() =~= ws.take(i as int));
        assert(ws.take(i + 1).last() == ws[i as int]);
        if windows[i].app_id == *app_id {
            out.push(windows[i].id.clone());
            assert(string_views(out@) =~= before.push(ws[i as int].id));
        }
        i = i + 1;
    }
    assert(ws.take(n as int) =~= ws);
    out
}

} // verus!
