//! The list of applications pinned to the taskbar, one per line of a text
//! file: reading it, pinning and unpinning, and writing it back.

use vstd::prelude::*;
use crate::text::{
    chars_of, contains_string, lines_chars, string_from_chars, string_views, text_lines, trim,
    trim_chars, views,
};

verus! {

/// The lines that are not blank, in order.
pub open spec fn non_blank(ls: Seq<Seq<char>>) -> Seq<Seq<char>>
    decreases ls.len(),
{
    if ls.len() == 0 {
        Seq::empty()
    } else {
        let p = non_blank(ls.drop_last());
        if trim(ls.last()).len() > 0 {
            p.push(ls.last())
        } else {
            p
        }
    }
}

/// The pinned entries that a file with this content holds.
pub open spec fn pinned_entries(content: Seq<char>) -> Seq<Seq<char>> {
    non_blank(text_lines(content))
}

/// The lines without any that equal `item`.
pub open spec fn without(ls: Seq<Seq<char>>, item: Seq<char>) -> Seq<Seq<char>>
    decreases ls.len(),
{
    if ls.len() == 0 {
        Seq::empty()
    } else {
        let p = without(ls.drop_last(), item);
        if ls.last() == item {
            p
        } else {
            p.push(ls.last())
        }
    }
}

/// The list after pinning (`pin`) or unpinning `item`: pinning adds it at
/// the end unless it is there already; unpinning removes every copy.
pub open spec fn toggled(ls: Seq<Seq<char>>, item: Seq<char>, pin: bool) -> Seq<Seq<char>> {
    if pin {
        if ls.contains(item) {
            ls
        } else {
            ls.push(item)
        }
    } else {
        without(ls, item)
    }
}

/// The file content for these entries: each on a line of its own.
pub open spec fn rendered(ls: Seq<Seq<char>>) -> Seq<char>
    decreases ls.len(),
{
    if ls.len() == 0 {
        Seq::empty()
    } else {
        rendered(ls.drop_last()) + ls.last() + seq!['\n']
    }
}

/// The pinned entries of a file with this content: its lines that are not
/// blank.
pub fn parse_pinned(content: &str) -> (r: Vec<String>)
    ensures
        string_views(r@) == pinned_entries(content@),
{
    let chars = chars_of(content);
    let lines = lines_chars(&chars);
    let ghost ls = views(lines@);
    let n = lines.len();
    let mut out: Vec<String> = Vec::new();
    let mut i: usize = 0;
    while i < n
        invariant
            n == lines@.len(),
            ls == views(lines@),
            ls == text_lines(content@),
            i <= n,
            string_views(out@) == non_blank(ls.take(i as int)),
        decreases n - i,
    {
        let ghost before = string_views(out@);
        assert(ls.take(i + 1).drop_last() =~= ls.take(i as int));
        assert(ls.take(i + 1).last() == ls[i as int]);
        let t = trim_chars(&lines[i]);
        if t.len() > 0 {
            out.push(string_from_chars(&lines[i]));
            assert(string_views(out@) =~= before.push(ls[i as int]));
        }
        i = i + 1;
    }
    assert(ls.take(n as int) =~= ls);
    out
}

/// Pins (`pin`) or unpins `item`.
pub fn toggle_pinned(lines: &Vec<String>, item: &String, pin: bool) -> (r: Vec<String>)
    ensures
        string_views(r@) == toggled(string_views(lines@), item@, pin),
{
    let ghost ls = string_views(lines@);
    if pin {
        let mut out = lines.clone();
        assert(string_views(out@) =~= ls);
        if !contains_string(lines, item) {
            out.push(item.clone());
            assert(string_views(out@) =~= ls.push(item@));
        }
        out
    } else {
        let n = lines.len();
        let mut out: Vec<String> = Vec::new();
        let mut i: usize = 0;
        while i < n
            invariant
                n == lines@.len(),
                ls == string_views(lines@),
                i <= n,
                string_views(out@) == without(ls.take(i as int), item@),
            decreases n - i,
        {
            let ghost before = string_views(out@);
            assert(ls.take(i + 1).drop_last() =~= ls.take(i as int));
            assert(ls.take(i + 1).last() == ls[i as int]);
            if lines[i] != *item {
                out.push(lines[i].clone());
                assert(string_views(out@) =~= before.push(ls[i as int]));
            }
            i = i + 1;
        }
        assert(ls.take(n as int) =~= ls);
        out
    }
}

/// The file content for these entries.
pub fn render_pinned(lines: &Vec<String>) -> (r: String)
    ensures
        r@ == rendered(string_views(lines@)),
{
    let ghost ls = string_views(lines@);
    let mut out = String::new();
    let n = lines.len();
    let mut i: usize = 0;
    while i < n
        invariant
            n == lines@.len(),
            ls == string_views(lines@),
            i <= n,
            out@ == rendered(ls.take(i as int)),
        decreases n - i,
    {
        assert(ls.take(i + 1).drop_last() =~= ls.take(i as int));
        assert(ls.take(i + 1).last() == ls[i as int]);
        out.append(lines[i].as_str());
        out.append("\n");
        proof {
            reveal_strlit("\n");
        }
        assert(out@ =~= rendered(ls.take(i + 1)));
        i = i + 1;
    }
    assert(ls.take(n as int) =~= ls);
    out
}

/// Pinning twice is pinning once; after pinning the entry is in the list,
/// and after unpinning no copy of it is left.
pub proof fn lemma_toggle_pinned(ls: Seq<Seq<char>>, item: Seq<char>)
    ensures
        toggled(toggled(ls, item, true), item, true) == toggled(ls, item, true),
        toggled(ls, item, true).contains(item),
        !toggled(ls, item, false).contains(item),
{
    let p = toggled(ls, item, true);
    if !ls.contains(item) {
        assert(p[ls.len() as int] == item);
    }
    lemma_without_removes(ls, item);
}

/// No copy of `item` is left after `without`.
pub proof fn lemma_without_removes(ls: Seq<Seq<char>>, item: Seq<char>)
    ensures
        !without(ls, item).contains(item),
    decreases ls.len(),
{
    if ls.len() > 0 {
        lemma_without_removes(ls.drop_last(), item);
        let p = without(ls.drop_last(), item);
        if ls.last() != item {
            assert forall|k: int| 0 <= k < p.len() + 1 implies p.push(ls.last())[k] != item by {
                if k < p.len() {
                    assert(p.push(ls.last())[k] == p[k]);
                }
            }
        }
    }
}

} // verus!
