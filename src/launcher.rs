//! The application launcher's data: its entries, in name order, and which of
//! them it shows for a search query.

use vstd::prelude::*;
use crate::icons::{fix_icon_name, icon_for};
use crate::text::{
    chars_of, contains_chars, contains_seq, contains_string, lower_of, lowercase, string_views,
    views,
};

verus! {

/// One installed application.
pub struct AppEntry {
    pub name: String,
    pub description: String,
    pub desktop_file: String,
    pub icon: String,
    pub pinned: bool,
}

/// The value of an [`AppEntry`].
pub ghost struct AppView {
    pub name: Seq<char>,
    pub description: Seq<char>,
    pub desktop_file: Seq<char>,
    pub icon: Seq<char>,
    pub pinned: bool,
}

impl View for AppEntry {
    type V = AppView;

    open spec fn view(&self) -> AppView {
        AppView {
            name: self.name@,
            description: self.description@,
            desktop_file: self.desktop_file@,
            icon: self.icon@,
            pinned: self.pinned,
        }
    }
}

pub open spec fn app_views(v: Seq<AppEntry>) -> Seq<AppView> {
    v.map_values(|a: AppEntry| a@)
}

/// The icon name of an application that declares none.
pub open spec fn default_icon() -> Seq<char> {
    "application-x-executable"@
}

/// The entry of an application with this name, description, desktop file
/// and declared icon, given the pinned desktop files.
pub fn make_entry(
    name: String,
    description: String,
    desktop_file: String,
    icon: Option<String>,
    pinned: &Vec<String>,
) -> (r: AppEntry)
    ensures
        r.name == name,
        r.description == description,
        r.desktop_file == desktop_file,
        r.icon@ == match icon {
            Some(i) => icon_for(lower_of(i@), i@),
            None => icon_for(lower_of(default_icon()), default_icon()),
        },
        r.pinned == string_views(pinned@).contains(desktop_file@),
{
    let icon_name = match icon {
        Some(i) => i,
        None => String::from_str("application-x-executable"),
    };
    let is_pinned = contains_string(pinned, &desktop_file);
    AppEntry {
        name,
        description,
        desktop_file,
        icon: fix_icon_name(icon_name.as_str()),
        pinned: is_pinned,
    }
}

/// `a` comes before `b` in the order of `str`'s `<`: the first character
/// that differs decides, and a proper prefix comes first.
pub open spec fn seq_less(a: Seq<char>, b: Seq<char>) -> bool
    decreases a.len(),
{
    if b.len() == 0 {
        false
    } else if a.len() == 0 {
        true
    } else if a[0] != b[0] {
        (a[0] as u32) < (b[0] as u32)
    } else {
        seq_less(a.drop_first(), b.drop_first())
    }
}

pub fn chars_less(a: &Vec<char>, b: &Vec<char>) -> (r: bool)
    ensures
        r == seq_less(a@, b@),
{
    let mut k: usize = 0;
    assert(a@.skip(0) =~= a@);
    assert(b@.skip(0) =~= b@);
    while k < a.len() && k < b.len() && a[k] == b[k]
        invariant
            k <= a@.len(),
            k <= b@.len(),
            seq_less(a@, b@) == seq_less(a@.skip(k as int), b@.skip(k as int)),
        decreases a@.len() - k,
    {
        assert(a@.skip(k as int).drop_first() =~= a@.skip(k + 1));
        assert(b@.skip(k as int).drop_first() =~= b@.skip(k + 1));
        k = k + 1;
    }
    if k == b.len() {
        false
    } else if k == a.len() {
        true
    } else {
        (a[k] as u32) < (b[k] as u32)
    }
}

/// `x` put into the list `p`, ordered by `keys`, after every entry whose key
/// is not greater.
pub open spec fn insert_by_key(p: Seq<int>, x: int, keys: Seq<Seq<char>>) -> Seq<int>
    decreases p.len(),
{
    if p.len() == 0 {
        seq![x]
    } else if seq_less(keys[x], keys[p.last()]) {
        insert_by_key(p.drop_last(), x, keys).push(p.last())
    } else {
        p.push(x)
    }
}

/// The positions `0..n` ordered by `keys`; equal keys keep their order (the
/// order a stable sort gives).
pub open spec fn order_by_key(n: nat, keys: Seq<Seq<char>>) -> Seq<int>
    decreases n,
{
    if n == 0 {
        Seq::empty()
    } else {
        insert_by_key(order_by_key((n - 1) as nat, keys), n - 1, keys)
    }
}

/// The lower-case names of the entries.
pub open spec fn name_keys(apps: Seq<AppView>) -> Seq<Seq<char>> {
    apps.map_values(|a: AppView| lower_of(a.name))
}

fn insert_position(p: &mut Vec<usize>, x: usize, keys: &Vec<Vec<char>>)
    requires
        x < keys@.len(),
        forall|i: int| 0 <= i < old(p)@.len() ==> old(p)@[i] < keys@.len(),
    ensures
        final(p)@.map_values(|i: usize| i as int) == insert_by_key(
            old(p)@.map_values(|i: usize| i as int),
            x as int,
            views(keys@),
        ),
        forall|i: int| 0 <= i < final(p)@.len() ==> final(p)@[i] < keys@.len(),
{
    let ghost ks = views(keys@);
    let ghost s = p@.map_values(|i: usize| i as int);
    let mut pos = p.len();
    assert(s.subrange(pos as int, s.len() as int) =~= Seq::<int>::empty());
    assert(s.take(pos as int) =~= s);
    while pos > 0 && chars_less(&keys[x], &keys[p[pos - 1]])
        invariant
            pos <= p@.len(),
            x < keys@.len(),
            ks == views(keys@),
            s == p@.map_values(|i: usize| i as int),
            forall|i: int| 0 <= i < p@.len() ==> p@[i] < keys@.len(),
            insert_by_key(s, x as int, ks) == insert_by_key(s.take(pos as int), x as int, ks)
                + s.subrange(pos as int, s.len() as int),
        decreases pos,
    {
        let ghost t = s.take(pos as int);
        assert(t.drop_last() =~= s.take(pos - 1));
        assert(t.last() == s[pos - 1]);
        assert(s.subrange(pos - 1, s.len() as int) =~= seq![s[pos - 1]] + s.subrange(
            pos as int,
            s.len() as int,
        ));
        assert(insert_by_key(s.take(pos - 1), x as int, ks).push(s[pos - 1]) + s.subrange(
            pos as int,
            s.len() as int,
        ) =~= insert_by_key(s.take(pos - 1), x as int, ks) + s.subrange(
            pos - 1,
            s.len() as int,
        ));
        pos = pos - 1;
    }
    p.insert(pos, x);
    assert(p@.map_values(|i: usize| i as int) =~= s.take(pos as int).push(x as int) + s.subrange(
        pos as int,
        s.len() as int,
    ));
}

/// The positions of the entries in order of their lower-case names, as a
/// stable sort by that key gives them.
pub fn name_order(apps: &Vec<AppEntry>) -> (r: Vec<usize>)
    ensures
        r@.map_values(|i: usize| i as int) == order_by_key(
            apps@.len(),
            name_keys(app_views(apps@)),
        ),
{
    let n = apps.len();
    let mut keys: Vec<Vec<char>> = Vec::new();
    let mut i: usize = 0;
    while i < n
        invariant
            n == apps@.len(),
            i <= n,
            keys@.len() == i,
            forall|k: int| 0 <= k < i ==> (#[trigger] keys@[k])@ == lower_of(apps@[k].name@),
        decreases n - i,
    {
        let l = lowercase(apps[i].name.as_str());
        keys.push(chars_of(l.as_str()));
        i = i + 1;
    }
    assert(views(keys@) =~= name_keys(app_views(apps@)));
    let mut order: Vec<usize> = Vec::new();
    let mut j: usize = 0;
    assert(order@.map_values(|i: usize| i as int) =~= Seq::<int>::empty());
    while j < n
        invariant
            n == apps@.len(),
            n == keys@.len(),
            j <= n,
            views(keys@) == name_keys(app_views(apps@)),
            forall|k: int| 0 <= k < order@.len() ==> order@[k] < n,
            order@.map_values(|i: usize| i as int) == order_by_key(
                j as nat,
                name_keys(app_views(apps@)),
            ),
        decreases n - j,
    {
        insert_position(&mut order, j, &keys);
        j = j + 1;
    }
    order
}

/// An entry matches a query when its lower-case name or description holds
/// the lower-case query.
pub open spec fn matches(name_lower: Seq<char>, desc_lower: Seq<char>, query_lower: Seq<char>) -> bool {
    contains_seq(name_lower, query_lower) || contains_seq(desc_lower, query_lower)
}

/// Whether an entry matches, given the lower-case forms of its name, its
/// description and the query.
pub fn matches_query(name_lower: &str, desc_lower: &str, query_lower: &str) -> (r: bool)
    ensures
        r == matches(name_lower@, desc_lower@, query_lower@),
{
    let q = chars_of(query_lower);
    contains_chars(&chars_of(name_lower), &q) || contains_chars(&chars_of(desc_lower), &q)
}

/// What the launcher shows.
pub struct LauncherView {
    /// The pinned section is shown: no search is under way and something is
    /// pinned.
    pub show_pinned: bool,
    /// The positions of the pinned entries, in pinned order.
    pub pinned: Vec<usize>,
    /// A search is under way.
    pub searching: bool,
    /// The positions of the entries that match the search, in order.
    pub results: Vec<usize>,
}

/// The position of the first entry with this desktop file.
pub open spec fn entry_of(apps: Seq<AppView>, desktop_file: Seq<char>, from: int) -> Option<int>
    decreases apps.len() - from,
{
    if from < 0 || from >= apps.len() {
        None
    } else if apps[from].desktop_file == desktop_file {
        Some(from)
    } else {
        entry_of(apps, desktop_file, from + 1)
    }
}

/// The positions of the pinned entries, in pinned order; a pinned desktop
/// file without an entry is left out.
pub open spec fn pinned_positions(apps: Seq<AppView>, pinned: Seq<Seq<char>>) -> Seq<int>
    decreases pinned.len(),
{
    if pinned.len() == 0 {
        Seq::empty()
    } else {
        let p = pinned_positions(apps, pinned.drop_last());
        match entry_of(apps, pinned.last(), 0) {
            Some(i) => p.push(i),
            None => p,
        }
    }
}

/// The positions of the entries that match, in order.
pub open spec fn result_positions(apps: Seq<AppView>, query: Seq<char>, n: nat) -> Seq<int>
    decreases n,
{
    if n == 0 {
        Seq::empty()
    } else {
        let p = result_positions(apps, query, (n - 1) as nat);
        let a = apps[n - 1];
        if matches(lower_of(a.name), lower_of(a.description), lower_of(query)) {
            p.push(n - 1)
        } else {
            p
        }
    }
}

fn first_entry(apps: &Vec<AppEntry>, desktop_file: &String) -> (r: Option<usize>)
    ensures
        match r {
            Some(i) => entry_of(app_views(apps@), desktop_file@, 0) == Some(i as int),
            None => entry_of(app_views(apps@), desktop_file@, 0) is None,
        },
{
    let ghost av = app_views(apps@);
    let n = apps.len();
    let mut i: usize = 0;
    while i < n
        invariant
            n == av.len(),
            av == app_views(apps@),
            i <= n,
            entry_of(av, desktop_file@, 0) == entry_of(av, desktop_file@, i as int),
        decreases n - i,
    {
        if apps[i].desktop_file == *desktop_file {
            return Some(i);
        }
        i = i + 1;
    }
    None
}

/// What the launcher shows for the query `filter` (empty: no search).
pub fn launcher_view(apps: &Vec<AppEntry>, pinned: &Vec<String>, filter: &str) -> (r: LauncherView)
    ensures
        r.searching == (filter@.len() > 0),
        r.show_pinned == (filter@.len() == 0 && pinned@.len() > 0),
        r.pinned@.map_values(|i: usize| i as int) == if r.show_pinned {
            pinned_positions(app_views(apps@), string_views(pinned@))
        } else {
            Seq::empty()
        },
        r.results@.map_values(|i: usize| i as int) == if r.searching {
            result_positions(app_views(apps@), filter@, apps@.len())
        } else {
            Seq::empty()
        },
{
    let ghost av = app_views(apps@);
    let ghost pv = string_views(pinned@);
    let searching = filter.unicode_len() > 0;
    let show_pinned = !searching && pinned.len() > 0;
    let mut pins: Vec<usize> = Vec::new();
    if show_pinned {
        let mut k: usize = 0;
        while k < pinned.len()
            invariant
                k <= pinned@.len(),
                av == app_views(apps@),
                pv == string_views(pinned@),
                pins@.map_values(|i: usize| i as int) == pinned_positions(av, pv.take(k as int)),
            decreases pinned@.len() - k,
        {
            let ghost before = pins@.map_values(|i: usize| i as int);
            assert(pv.take(k + 1).drop_last() =~= pv.take(k as int));
            assert(pv.take(k + 1).last() == pinned@[k as int]@);
            match first_entry(apps, &pinned[k]) {
                Some(i) => {
                    pins.push(i);
                    assert(pins@.map_values(|i: usize| i as int) =~= before.push(i as int));
                },
                None => {},
            }
            k = k + 1;
        }
        assert(pv.take(pinned@.len() as int) =~= pv);
    } else {
        assert(pins@.map_values(|i: usize| i as int) =~= Seq::<int>::empty());
    }
    let mut results: Vec<usize> = Vec::new();
    if searching {
        let query = lowercase(filter);
        let n = apps.len();
        let mut j: usize = 0;
        while j < n
            invariant
                n == apps@.len(),
                av == app_views(apps@),
                query@ == lower_of(filter@),
                j <= n,
                results@.map_values(|i: usize| i as int) == result_positions(av, filter@, j as nat),
            decreases n - j,
        {
            let ghost before = results@.map_values(|i: usize| i as int);
            let name = lowercase(apps[j].name.as_str());
            let desc = lowercase(apps[j].description.as_str());
            if matches_query(name.as_str(), desc.as_str(), query.as_str()) {
                results.push(j);
                assert(results@.map_values(|i: usize| i as int) =~= before.push(j as int));
            }
            j = j + 1;
        }
    } else {
        assert(results@.map_values(|i: usize| i as int) =~= Seq::<int>::empty());
    }
    LauncherView { show_pinned, pinned: pins, searching, results }
}

} // verus!
