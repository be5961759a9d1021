//! Keyboard layouts: the short code of each layout slot of a keymap, and the
//! code of the slot that the compositor says is active.

use vstd::prelude::*;
use crate::bridge::UiEvent;
use crate::text::{
    chars_of, find_chars, find_seq, first_piece, first_piece_chars, lemma_find_from_bounds,
    same_chars, split_chars, split_on, string_from_chars, string_views, sub_chars, trim,
    trim_chars, upper_of, uppercase, views,
};

verus! {

/// The keymap format code of the one text format that is decoded.
pub const KEYMAP_FORMAT_TEXT_V1: u32 = 1;

/// The section of a keymap that names the symbol files it includes.
pub open spec fn symbols_keyword() -> Seq<char> {
    seq!['x', 'k', 'b', '_', 's', 'y', 'm', 'b', 'o', 'l', 's']
}

pub open spec fn include_keyword() -> Seq<char> {
    seq!['i', 'n', 'c', 'l', 'u', 'd', 'e']
}

/// The code shown for a layout slot that no layout name covers.
pub open spec fn unknown_code() -> Seq<char> {
    seq!['?', '?']
}

/// The code shown before any keymap has said otherwise.
pub open spec fn initial_code() -> Seq<char> {
    seq!['U', 'S']
}

/// The quoted string of the first `include` after `xkb_symbols`, as in
/// `xkb_symbols "..." { include "pc+us+ru:2+inet(evdev)" ... }`.
pub open spec fn include_directive(t: Seq<char>) -> Option<Seq<char>> {
    match find_seq(t, symbols_keyword()) {
        None => None,
        Some(s) => {
            let r1 = t.subrange(s, t.len() as int);
            match find_seq(r1, include_keyword()) {
                None => None,
                Some(k) => {
                    let r2 = r1.subrange(k, r1.len() as int);
                    match find_seq(r2, seq!['"']) {
                        None => None,
                        Some(q) => {
                            let r3 = r2.subrange(q + 1, r2.len() as int);
                            match find_seq(r3, seq!['"']) {
                                None => None,
                                Some(e) => Some(r3.take(e)),
                            }
                        },
                    }
                },
            }
        },
    }
}

/// Tokens of an include string that name no language: the keyboard model,
/// generic extensions and helper files.
pub open spec fn is_non_language(c: Seq<char>) -> bool {
    ||| c == seq!['p', 'c']
    ||| c == seq!['e', 'v', 'd', 'e', 'v']
    ||| c == seq!['i', 'n', 'e', 't']
    ||| c == seq!['b', 'a', 's', 'e']
    ||| c == seq!['a', 'l', 'i', 'a', 's', 'e', 's']
    ||| c == seq!['e', 'm', 'p', 't', 'y']
    ||| c == seq!['c', 'o', 'm', 'p', 'l', 'e', 't', 'e']
}

/// One `+`-separated part of an include string without its variant in
/// parentheses and its `:n` group index.
pub open spec fn layout_token(part: Seq<char>) -> Seq<char> {
    trim(first_piece(trim(first_piece(part, '(')), ':'))
}

/// The tokens of these parts that name a language, in order.
pub open spec fn language_tokens(parts: Seq<Seq<char>>) -> Seq<Seq<char>>
    decreases parts.len(),
{
    if parts.len() == 0 {
        Seq::empty()
    } else {
        let rest = language_tokens(parts.drop_last());
        let c = layout_token(parts.last());
        if c.len() > 0 && !is_non_language(c) {
            rest.push(c)
        } else {
            rest
        }
    }
}

/// The language tokens of an include string, in declaration order.
pub open spec fn include_codes(inc: Seq<char>) -> Seq<Seq<char>> {
    language_tokens(split_on(inc, '+'))
}

/// The short code of each layout that a keymap's include directive names.
pub open spec fn short_codes(text: Seq<char>) -> Seq<Seq<char>> {
    match include_directive(text) {
        Some(inc) => include_codes(inc).map_values(|c: Seq<char>| upper_of(c)),
        None => Seq::empty(),
    }
}

/// The code of a layout slot that the include directive does not cover: the
/// first two characters of the keymap's own name for it, in upper case.
pub open spec fn fallback_code(name: Seq<char>) -> Seq<char> {
    upper_of(name.take(if name.len() < 2 { name.len() as int } else { 2 }))
}

/// One code per layout slot: the parsed codes first, then the fallbacks.
pub open spec fn layout_names(codes: Seq<Seq<char>>, xkb_names: Seq<Seq<char>>) -> Seq<Seq<char>> {
    Seq::new(
        xkb_names.len(),
        |i: int|
            if i < codes.len() {
                codes[i]
            } else {
                fallback_code(xkb_names[i])
            },
    )
}

/// The code of layout slot `group`, or the placeholder where there is none.
pub open spec fn code_at(names: Seq<Seq<char>>, group: int) -> Seq<char> {
    if 0 <= group < names.len() {
        names[group]
    } else {
        unknown_code()
    }
}

/// The include directive of a keymap text, if it has one.
pub fn find_include_directive(text: &Vec<char>) -> (r: Option<Vec<char>>)
    ensures
        match r {
            Some(inc) => include_directive(text@) == Some(inc@),
            None => include_directive(text@) is None,
        },
{
    let symbols: Vec<char> = vec!['x', 'k', 'b', '_', 's', 'y', 'm', 'b', 'o', 'l', 's'];
    let inc_kw: Vec<char> = vec!['i', 'n', 'c', 'l', 'u', 'd', 'e'];
    let quote: Vec<char> = vec!['"'];
    assert(symbols@ =~= symbols_keyword());
    assert(inc_kw@ =~= include_keyword());
    assert(quote@ =~= seq!['"']);
    let s = match find_chars(text, &symbols) {
        Some(s) => s,
        None => return None,
    };
    proof {
        lemma_find_from_bounds(text@, symbols@, 0);
    }
    let r1 = sub_chars(text, s, text.len());
    let k = match find_chars(&r1, &inc_kw) {
        Some(k) => k,
        None => return None,
    };
    proof {
        lemma_find_from_bounds(r1@, inc_kw@, 0);
    }
    let r2 = sub_chars(&r1, k, r1.len());
    let q = match find_chars(&r2, &quote) {
        Some(q) => q,
        None => return None,
    };
    proof {
        lemma_find_from_bounds(r2@, quote@, 0);
    }
    let r3 = sub_chars(&r2, q + 1, r2.len());
    let e = match find_chars(&r3, &quote) {
        Some(e) => e,
        None => return None,
    };
    proof {
        lemma_find_from_bounds(r3@, quote@, 0);
    }
    let inc = sub_chars(&r3, 0, e);
    assert(inc@ =~= r3@.take(e as int));
    Some(inc)
}

/// Whether a token names no language.
pub fn non_language(c: &Vec<char>) -> (r: bool)
    ensures
        r == is_non_language(c@),
{
    let pc: Vec<char> = vec!['p', 'c'];
    let evdev: Vec<char> = vec!['e', 'v', 'd', 'e', 'v'];
    let inet: Vec<char> = vec!['i', 'n', 'e', 't'];
    let base: Vec<char> = vec!['b', 'a', 's', 'e'];
    let aliases: Vec<char> = vec!['a', 'l', 'i', 'a', 's', 'e', 's'];
    let empty: Vec<char> = vec!['e', 'm', 'p', 't', 'y'];
    let complete: Vec<char> = vec!['c', 'o', 'm', 'p', 'l', 'e', 't', 'e'];
    assert(pc@ =~= seq!['p', 'c']);
    assert(evdev@ =~= seq!['e', 'v', 'd', 'e', 'v']);
    assert(inet@ =~= seq!['i', 'n', 'e', 't']);
    assert(base@ =~= seq!['b', 'a', 's', 'e']);
    assert(aliases@ =~= seq!['a', 'l', 'i', 'a', 's', 'e', 's']);
    assert(empty@ =~= seq!['e', 'm', 'p', 't', 'y']);
    assert(complete@ =~= seq!['c', 'o', 'm', 'p', 'l', 'e', 't', 'e']);
    same_chars(c, &pc) || same_chars(c, &evdev) || same_chars(c, &inet) || same_chars(c, &base)
        || same_chars(c, &aliases) || same_chars(c, &empty) || same_chars(c, &complete)
}

/// The language tokens of an include string such as
/// `"pc+us+ru:2+inet(evdev)"`, before case mapping: `["us", "ru"]`.
pub fn include_codes_of(inc: &str) -> (r: Vec<String>)
    ensures
        string_views(r@) == include_codes(inc@),
{
    let chars = chars_of(inc);
    let parts = split_chars(&chars, '+');
    let ghost ps = views(parts@);
    let mut out: Vec<String> = Vec::new();
    let n = parts.len();
    let mut i: usize = 0;
    while i < n
        invariant
            n == parts@.len(),
            ps == views(parts@),
            ps == split_on(inc@, '+'),
            i <= n,
            string_views(out@) == language_tokens(ps.take(i as int)),
        decreases n - i,
    {
        let ghost before = string_views(out@);
        assert(ps.take(i + 1).drop_last() =~= ps.take(i as int));
        assert(ps.take(i + 1).last() == parts@[i as int]@);
        let no_variant = first_piece_chars(&parts[i], '(');
        let trimmed = trim_chars(&no_variant);
        let no_group = first_piece_chars(&trimmed, ':');
        let code = trim_chars(&no_group);
        if code.len() > 0 && !non_language(&code) {
            let s = string_from_chars(&code);
            out.push(s);
            assert(string_views(out@) =~= before.push(code@));
        }
        i = i + 1;
    }
    assert(ps.take(n as int) =~= ps);
    out
}

/// The short codes of an include string, in upper case: `["US", "RU"]` for
/// `"pc+us+ru:2+inet(evdev)"`.
pub fn parse_include(inc: &str) -> (r: Vec<String>)
    ensures
        string_views(r@) == include_codes(inc@).map_values(|c: Seq<char>| upper_of(c)),
{
    let codes = include_codes_of(inc);
    let mut out: Vec<String> = Vec::new();
    let n = codes.len();
    let mut i: usize = 0;
    while i < n
        invariant
            n == codes@.len(),
            string_views(codes@) == include_codes(inc@),
            i <= n,
            string_views(out@) =~= include_codes(inc@).take(i as int).map_values(
                |c: Seq<char>| upper_of(c),
            ),
        decreases n - i,
    {
        let ghost before = string_views(out@);
        let u = uppercase(codes[i].as_str());
        assert(codes@[i as int]@ == include_codes(inc@)[i as int]);
        out.push(u);
        assert(string_views(out@) =~= before.push(u@));
        assert(include_codes(inc@).take(i + 1).map_values(|c: Seq<char>| upper_of(c))
            =~= include_codes(inc@).take(i as int).map_values(|c: Seq<char>| upper_of(c)).push(
            upper_of(include_codes(inc@)[i as int]),
        ));
        i = i + 1;
    }
    assert(include_codes(inc@).take(n as int) =~= include_codes(inc@));
    out
}

/// The short codes that a keymap text's include directive names, in order;
/// none where it has no such directive.
pub fn keymap_short_codes(text: &str) -> (r: Vec<String>)
    ensures
        string_views(r@) == short_codes(text@),
{
    let chars = chars_of(text);
    match find_include_directive(&chars) {
        Some(inc) => {
            let s = string_from_chars(&inc);
            parse_include(s.as_str())
        },
        None => {
            let out: Vec<String> = Vec::new();
            assert(string_views(out@) =~= Seq::<Seq<char>>::empty());
            out
        },
    }
}

/// The fallback code of one layout name.
pub fn fallback_code_of(name: &str) -> (r: String)
    ensures
        r@ == fallback_code(name@),
{
    let chars = chars_of(name);
    let end: usize = if chars.len() < 2 {
        chars.len()
    } else {
        2
    };
    let head = sub_chars(&chars, 0, end);
    assert(head@ =~= name@.take(end as int));
    let s = string_from_chars(&head);
    uppercase(s.as_str())
}

/// One code per layout slot of a keymap with these layout names: the short
/// code parsed for the slot where there is one, else the fallback code.
pub fn derive_layout_names(short: &Vec<String>, xkb_names: &Vec<String>) -> (r: Vec<String>)
    ensures
        string_views(r@) == layout_names(string_views(short@), string_views(xkb_names@)),
{
    let ghost want = layout_names(string_views(short@), string_views(xkb_names@));
    let mut out: Vec<String> = Vec::new();
    let n = xkb_names.len();
    let mut i: usize = 0;
    while i < n
        invariant
            n == xkb_names@.len(),
            want == layout_names(string_views(short@), string_views(xkb_names@)),
            i <= n,
            string_views(out@) =~= want.take(i as int),
        decreases n - i,
    {
        let ghost before = string_views(out@);
        let code = if i < short.len() {
            short[i].clone()
        } else {
            fallback_code_of(xkb_names[i].as_str())
        };
        assert(code@ == want[i as int]);
        out.push(code);
        assert(string_views(out@) =~= before.push(want[i as int]));
        i = i + 1;
    }
    out
}

/// The code of layout slot `group`; the placeholder `"??"` where the keymap
/// has no such slot.
pub fn layout_code(names: &Vec<String>, group: u32) -> (r: String)
    ensures
        r@ == code_at(string_views(names@), group as int),
{
    let idx = group as usize;
    if idx < names.len() {
        names[idx].clone()
    } else {
        let s = String::from_str("??");
        proof {
            reveal_strlit("??");
        }
        assert(s@ =~= unknown_code());
        s
    }
}

/// Whether a keymap in this format can be decoded; others are ignored.
pub fn keymap_format_supported(format: u32) -> (r: bool)
    ensures
        r == (format == KEYMAP_FORMAT_TEXT_V1),
{
    format == KEYMAP_FORMAT_TEXT_V1
}

/// The keyboard's layout slots and the one that is active.
pub struct KeyboardLayoutState {
    layout_names: Vec<String>,
    current_index: u32,
    has_keymap: bool,
    current: String,
}

/// The value of a [`KeyboardLayoutState`].
pub ghost struct KeyboardView {
    pub names: Seq<Seq<char>>,
    pub index: u32,
    /// A keymap has been decoded.
    pub ready: bool,
    /// The code last reported.
    pub current: Seq<char>,
}

impl View for KeyboardLayoutState {
    type V = KeyboardView;

    closed spec fn view(&self) -> KeyboardView {
        KeyboardView {
            names: string_views(self.layout_names@),
            index: self.current_index,
            ready: self.has_keymap,
            current: self.current@,
        }
    }
}

impl KeyboardLayoutState {
    pub fn new() -> (r: KeyboardLayoutState)
        ensures
            r@.names == Seq::<Seq<char>>::empty(),
            r@.index == 0,
            !r@.ready,
            r@.current == initial_code(),
    {
        let current = String::from_str("US");
        proof {
            reveal_strlit("US");
        }
        assert(current@ =~= initial_code());
        let names: Vec<String> = Vec::new();
        let r = KeyboardLayoutState { layout_names: names, current_index: 0, has_keymap: false, current };
        assert(r@.names =~= Seq::<Seq<char>>::empty());
        r
    }

    /// Takes in a keymap that compiled: its text, and the keymap's own name of
    /// each layout slot. The layout codes are replaced and the active slot is
    /// reset to the first.
    pub fn install_keymap(&mut self, keymap_text: &str, xkb_names: &Vec<String>)
        ensures
            final(self)@.names == layout_names(short_codes(keymap_text@), string_views(xkb_names@)),
            final(self)@.index == 0,
            final(self)@.ready,
            final(self)@.current == old(self)@.current,
    {
        let short = keymap_short_codes(keymap_text);
        self.layout_names = derive_layout_names(&short, xkb_names);
        self.current_index = 0;
        self.has_keymap = true;
    }

    /// A modifiers event with layout group `group`. Before any keymap nothing
    /// happens; after one, the slot becomes active and its code is reported.
    pub fn on_modifiers(&mut self, group: u32) -> (r: Option<UiEvent>)
        ensures
            !old(self)@.ready ==> r is None && final(self)@ == old(self)@,
            old(self)@.ready ==> {
                &&& final(self)@.names == old(self)@.names
                &&& final(self)@.ready
                &&& final(self)@.index == group
                &&& final(self)@.current == code_at(old(self)@.names, group as int)
                &&& r matches Some(UiEvent::KeyboardLayout(c)) && c@ == code_at(
                    old(self)@.names,
                    group as int,
                )
            },
    {
        if !self.has_keymap {
            return None;
        }
        let code = layout_code(&self.layout_names, group);
        self.current_index = group;
        self.current = code.clone();
        Some(UiEvent::KeyboardLayout(code))
    }

    /// The code last reported.
    pub fn current_layout(&self) -> (r: String)
        ensures
            r@ == self@.current,
    {
        self.current.clone()
    }

    /// The code of each layout slot.
    pub fn layout_names(&self) -> (r: Vec<String>)
        ensures
            string_views(r@) == self@.names,
    {
        self.layout_names.clone()
    }
}

} // verus!
