//! The registry of toplevel windows: one record per live toplevel, filled in
//! piece by piece as the compositor's events arrive.

use vstd::prelude::*;

verus! {

/// What is known of one toplevel window. The protocol object itself is held
/// by the caller, keyed by `id`.
pub struct WindowRecord {
    pub id: String,
    pub title: String,
    pub app_id: String,
    pub minimized: bool,
    pub activated: bool,
    /// Set by a `closed` event; such a record is swept out before anyone
    /// reads the registry again.
    pub closed: bool,
}

/// The value of a [`WindowRecord`].
pub ghost struct RecordView {
    pub id: Seq<char>,
    pub title: Seq<char>,
    pub app_id: Seq<char>,
    pub minimized: bool,
    pub activated: bool,
    pub closed: bool,
}

impl View for WindowRecord {
    type V = RecordView;

    open spec fn view(&self) -> RecordView {
        RecordView {
            id: self.id@,
            title: self.title@,
            app_id: self.app_id@,
            minimized: self.minimized,
            activated: self.activated,
            closed: self.closed,
        }
    }
}

/// The record of a toplevel that has just been announced: nothing is known
/// of it but its identity.
pub open spec fn placeholder(id: Seq<char>) -> RecordView {
    RecordView {
        id,
        title: Seq::empty(),
        app_id: Seq::empty(),
        minimized: false,
        activated: false,
        closed: false,
    }
}

impl WindowRecord {
    pub fn new(id: String) -> (r: WindowRecord)
        ensures
            r@ == placeholder(id@),
    {
        WindowRecord {
            id,
            title: String::new(),
            app_id: String::new(),
            minimized: false,
            activated: false,
            closed: false,
        }
    }

    pub fn duplicate(&self) -> (r: WindowRecord)
        ensures
            r@ == self@,
    {
        WindowRecord {
            id: self.id.clone(),
            title: self.title.clone(),
            app_id: self.app_id.clone(),
            minimized: self.minimized,
            activated: self.activated,
            closed: self.closed,
        }
    }

    pub fn apply(&mut self, u: Update)
        ensures
            final(self)@ == apply_update(old(self)@, u),
    {
        match u {
            Update::Title(t) => {
                self.title = t;
            },
            Update::AppId(a) => {
                self.app_id = a;
            },
            Update::State(activated, minimized) => {
                if !(activated && minimized) {
                    self.activated = activated;
                    self.minimized = minimized;
                }
            },
            Update::Closed => {
                self.closed = true;
            },
        }
    }
}

/// One change to a record, as a content event of its toplevel brings it.
pub enum Update {
    Title(String),
    AppId(String),
    /// The decoded `(activated, minimized)` flags of a state event.
    State(bool, bool),
    Closed,
}

/// A record after one change. A state that claims both activated and
/// minimized is not a state a window can be in: it is ignored and the flags
/// keep their values.
pub open spec fn apply_update(r: RecordView, u: Update) -> RecordView {
    match u {
        Update::Title(t) => RecordView { title: t@, ..r },
        Update::AppId(a) => RecordView { app_id: a@, ..r },
        Update::State(activated, minimized) => if activated && minimized {
            r
        } else {
            RecordView { activated, minimized, ..r }
        },
        Update::Closed => RecordView { closed: true, ..r },
    }
}

/// No two records share an identity.
pub open spec fn ids_unique(s: Seq<RecordView>) -> bool {
    forall|i: int, j: int| 0 <= i < s.len() && 0 <= j < s.len() && i != j ==> s[i].id != s[j].id
}

/// Whether a record with this identity is there.
pub open spec fn has_id(s: Seq<RecordView>, id: Seq<char>) -> bool {
    exists|i: int| 0 <= i < s.len() && s[i].id == id
}

/// The registry after `upsert-by-id`: the record with this identity gets the
/// change; where there is none, a placeholder is added and gets it.
pub open spec fn upsert(s: Seq<RecordView>, id: Seq<char>, u: Update) -> Seq<RecordView> {
    if has_id(s, id) {
        let i = choose|i: int| 0 <= i < s.len() && s[i].id == id;
        s.update(i, apply_update(s[i], u))
    } else {
        s.push(apply_update(placeholder(id), u))
    }
}

/// The registry after an announcement: a placeholder is added for an
/// identity that is not there yet.
pub open spec fn announce(s: Seq<RecordView>, id: Seq<char>) -> Seq<RecordView> {
    if has_id(s, id) {
        s
    } else {
        s.push(placeholder(id))
    }
}

/// The records that are not marked closed, in their order.
pub open spec fn sweep(s: Seq<RecordView>) -> Seq<RecordView>
    decreases s.len(),
{
    if s.len() == 0 {
        s
    } else if s.last().closed {
        sweep(s.drop_last())
    } else {
        sweep(s.drop_last()).push(s.last())
    }
}

/// The shared collection of window records.
pub struct WindowRegistry {
    windows: Vec<WindowRecord>,
}

impl View for WindowRegistry {
    type V = Seq<RecordView>;

    closed spec fn view(&self) -> Seq<RecordView> {
        self.windows@.map_values(|w: WindowRecord| w@)
    }
}

impl WindowRegistry {
    pub open spec fn wf(&self) -> bool {
        ids_unique(self@)
    }

    pub fn new() -> (r: WindowRegistry)
        ensures
            r@ == Seq::<RecordView>::empty(),
            r.wf(),
    {
        WindowRegistry { windows: Vec::new() }
    }

    pub fn len(&self) -> (r: usize)
        ensures
            r == self@.len(),
    {
        self.windows.len()
    }

    /// The position of the record with this identity.
    pub fn find(&self, id: &String) -> (r: Option<usize>)
        requires
            self.wf(),
        ensures
            match r {
                Some(i) => i < self@.len() && self@[i as int].id == id@,
                None => !has_id(self@, id@),
            },
    {
        let n = self.windows.len();
        let mut i: usize = 0;
        while i < n
            invariant
                n == self@.len(),
                i <= n,
                forall|j: int| 0 <= j < i ==> self@[j].id != id@,
            decreases n - i,
        {
            if self.windows[i].id == *id {
                return Some(i);
            }
            i = i + 1;
        }
        None
    }

    /// `upsert-by-id`: creates the record if absent, then applies the change.
    pub fn upsert_by_id(&mut self, id: String, u: Update)
        requires
            old(self).wf(),
        ensures
            final(self).wf(),
            final(self)@ == upsert(old(self)@, id@, u),
    {
        let ghost s = self@;
        match self.find(&id) {
            Some(i) => {
                let mut rec = self.windows[i].duplicate();
                rec.apply(u);
                self.windows.set(i, rec);
                proof {
                    let k = choose|k: int| 0 <= k < s.len() && s[k].id == id@;
                    assert(k == i);
                    assert(self@ =~= s.update(i as int, apply_update(s[i as int], u)));
                }
            },
            None => {
                let mut rec = WindowRecord::new(id);
                rec.apply(u);
                self.windows.push(rec);
                assert(self@ =~= s.push(apply_update(placeholder(id@), u)));
            },
        }
    }

    /// Registers the placeholder record of a toplevel that was just announced.
    pub fn announce(&mut self, id: String)
        requires
            old(self).wf(),
        ensures
            final(self).wf(),
            final(self)@ == announce(old(self)@, id@),
    {
        let ghost s = self@;
        if self.find(&id).is_none() {
            self.windows.push(WindowRecord::new(id));
            assert(self@ =~= s.push(placeholder(id@)));
        }
    }

    /// `remove-closed`: the sweep that drops every record marked closed.
    pub fn remove_closed(&mut self)
        requires
            old(self).wf(),
        ensures
            final(self).wf(),
            final(self)@ == sweep(old(self)@),
    {
        let ghost s = self@;
        let mut kept: Vec<WindowRecord> = Vec::new();
        let n = self.windows.len();
        let mut i: usize = 0;
        while i < n
            invariant
                n == s.len(),
                s == self@,
                i <= n,
                kept@.map_values(|w: WindowRecord| w@) == sweep(s.take(i as int)),
            decreases n - i,
        {
            let ghost before = kept@.map_values(|w: WindowRecord| w@);
            assert(s.take(i + 1).drop_last() =~= s.take(i as int));
            if !self.windows[i].closed {
                kept.push(self.windows[i].duplicate());
                assert(kept@.map_values(|w: WindowRecord| w@) =~= before.push(s[i as int]));
            }
            i = i + 1;
        }
        assert(s.take(n as int) =~= s);
        self.windows = kept;
        proof {
            lemma_sweep_keeps_unique(s);
        }
    }

    /// A copy of every record, in order, for a reader on another thread.
    pub fn snapshot(&self) -> (r: Vec<WindowRecord>)
        ensures
            r@.map_values(|w: WindowRecord| w@) == self@,
    {
        let mut out: Vec<WindowRecord> = Vec::new();
        let n = self.windows.len();
        let mut i: usize = 0;
        while i < n
            invariant
                n == self@.len(),
                i <= n,
                out@.map_values(|w: WindowRecord| w@) =~= self@.take(i as int),
            decreases n - i,
        {
            let ghost before = out@.map_values(|w: WindowRecord| w@);
            out.push(self.windows[i].duplicate());
            assert(out@.map_values(|w: WindowRecord| w@) =~= before.push(self@[i as int]));
            assert(self@.take(i + 1) =~= self@.take(i as int).push(self@[i as int]));
            i = i + 1;
        }
        out
    }
}

/// Every record that the sweep keeps was in the registry, unmarked.
pub proof fn lemma_sweep_subset(s: Seq<RecordView>)
    ensures
        sweep(s).len() <= s.len(),
        forall|k: int|
            0 <= k < sweep(s).len() ==> exists|j: int|
                0 <= j < s.len() && s[j] == #[trigger] sweep(s)[k] && !s[j].closed,
    decreases s.len(),
{
    if s.len() > 0 {
        let t = s.drop_last();
        lemma_sweep_subset(t);
        assert forall|k: int| 0 <= k < sweep(s).len() implies exists|j: int|
            0 <= j < s.len() && s[j] == #[trigger] sweep(s)[k] && !s[j].closed by {
            if k < sweep(t).len() {
                let j = choose|j: int| 0 <= j < t.len() && t[j] == sweep(t)[k] && !t[j].closed;
                assert(s[j] == t[j]);
            } else {
                assert(s[s.len() - 1] == sweep(s)[k]);
            }
        }
    }
}

/// The sweep keeps identities unique.
pub proof fn lemma_sweep_keeps_unique(s: Seq<RecordView>)
    requires
        ids_unique(s),
    ensures
        ids_unique(sweep(s)),
    decreases s.len(),
{
    if s.len() > 0 {
        let t = s.drop_last();
        assert(ids_unique(t));
        lemma_sweep_keeps_unique(t);
        lemma_sweep_subset(t);
        if !s.last().closed {
            let w = sweep(s);
            assert forall|i: int, j: int|
                0 <= i < w.len() && 0 <= j < w.len() && i != j implies w[i].id != w[j].id by {
                if i == w.len() - 1 || j == w.len() - 1 {
                    let k = if i == w.len() - 1 {
                        j
                    } else {
                        i
                    };
                    let m = choose|m: int|
                        0 <= m < t.len() && t[m] == sweep(t)[k] && !t[m].closed;
                    assert(s[m] == t[m]);
                    assert(s[m].id != s[s.len() - 1].id);
                }
            }
        }
    }
}

/// After a sweep no record is marked closed.
pub proof fn lemma_sweep_leaves_none_closed(s: Seq<RecordView>)
    ensures
        forall|k: int| 0 <= k < sweep(s).len() ==> !(#[trigger] sweep(s)[k]).closed,
{
    lemma_sweep_subset(s);
}

/// A sweep of records none of which is marked closed changes nothing.
pub proof fn lemma_sweep_of_unmarked(s: Seq<RecordView>)
    requires
        forall|k: int| 0 <= k < s.len() ==> !(#[trigger] s[k]).closed,
    ensures
        sweep(s) == s,
    decreases s.len(),
{
    if s.len() > 0 {
        lemma_sweep_of_unmarked(s.drop_last());
        assert(s.drop_last().push(s.last()) =~= s);
    }
}

/// `remove-closed` is idempotent: a second sweep with no closed event in
/// between changes nothing.
pub proof fn lemma_remove_closed_idempotent(s: Seq<RecordView>)
    ensures
        sweep(sweep(s)) == sweep(s),
{
    lemma_sweep_leaves_none_closed(s);
    lemma_sweep_of_unmarked(sweep(s));
}

/// `upsert-by-id` twice on one identity: there is still exactly one record
/// with it, and the second change applies to what the first one left.
pub proof fn lemma_upsert_twice(s: Seq<RecordView>, id: Seq<char>, u1: Update, u2: Update)
    requires
        ids_unique(s),
    ensures
        ids_unique(upsert(upsert(s, id, u1), id, u2)),
        ({
            let base = if has_id(s, id) {
                s[choose|i: int| 0 <= i < s.len() && s[i].id == id]
            } else {
                placeholder(id)
            };
            let t = upsert(upsert(s, id, u1), id, u2);
            exists|i: int|
                0 <= i < t.len() && t[i] == apply_update(apply_update(base, u1), u2) && forall|
                    j: int,
                |
                    0 <= j < t.len() && j != i ==> t[j].id != id
        }),
{
    lemma_upsert_unique(s, id, u1);
    let s1 = upsert(s, id, u1);
    lemma_upsert_unique(s1, id, u2);
    let t = upsert(s1, id, u2);
    if has_id(s, id) {
        let i = choose|i: int| 0 <= i < s.len() && s[i].id == id;
        assert(s1[i].id == id);
        let i1 = choose|k: int| 0 <= k < s1.len() && s1[k].id == id;
        assert(i1 == i);
        assert(t[i] == apply_update(apply_update(s[i], u1), u2));
    } else {
        let i = s.len() as int;
        assert(s1[i].id == id);
        let i1 = choose|k: int| 0 <= k < s1.len() && s1[k].id == id;
        assert(i1 == i);
        assert(t[i] == apply_update(apply_update(placeholder(id), u1), u2));
    }
}

/// `upsert-by-id` never makes two records with one identity.
pub proof fn lemma_upsert_unique(s: Seq<RecordView>, id: Seq<char>, u: Update)
    requires
        ids_unique(s),
    ensures
        ids_unique(upsert(s, id, u)),
        has_id(upsert(s, id, u), id),
        upsert(s, id, u).len() == if has_id(s, id) {
            s.len()
        } else {
            s.len() + 1
        },
{
    let t = upsert(s, id, u);
    if has_id(s, id) {
        let i = choose|i: int| 0 <= i < s.len() && s[i].id == id;
        assert(t[i].id == id);
    } else {
        assert(t[s.len() as int].id == id);
    }
}

} // verus!
