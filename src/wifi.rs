//! The Wi-Fi network list: the network manager's terse listing turned into
//! one entry per SSID, the connected network first, then by signal.

use vstd::prelude::*;
use crate::text::{
    chars_of, contains_chars, contains_seq, lines_chars, same_chars, string_from_chars,
    text_lines, trim, trim_chars, views,
};

verus! {

/// One network of the list.
pub struct WiFiNetwork {
    pub ssid: String,
    pub bssid: String,
    pub signal: i32,
    pub secured: bool,
    pub connected: bool,
    /// A saved connection mentions this SSID.
    pub known: bool,
}

/// The value of a [`WiFiNetwork`].
pub ghost struct NetworkView {
    pub ssid: Seq<char>,
    pub bssid: Seq<char>,
    pub signal: int,
    pub secured: bool,
    pub connected: bool,
    pub known: bool,
}

impl View for WiFiNetwork {
    type V = NetworkView;

    open spec fn view(&self) -> NetworkView {
        NetworkView {
            ssid: self.ssid@,
            bssid: self.bssid@,
            signal: self.signal as int,
            secured: self.secured,
            connected: self.connected,
            known: self.known,
        }
    }
}

impl WiFiNetwork {
    pub fn duplicate(&self) -> (r: WiFiNetwork)
        ensures
            r@ == self@,
    {
        WiFiNetwork {
            ssid: self.ssid.clone(),
            bssid: self.bssid.clone(),
            signal: self.signal,
            secured: self.secured,
            connected: self.connected,
            known: self.known,
        }
    }
}

pub open spec fn network_views(v: Seq<WiFiNetwork>) -> Seq<NetworkView> {
    v.map_values(|n: WiFiNetwork| n@)
}

/// Where a left-to-right scan of a line stands: the fields done, the one
/// being read, and whether the last character was an unused backslash.
pub ghost struct ScanState {
    pub done: Seq<Seq<char>>,
    pub current: Seq<char>,
    pub escaped: bool,
}

/// The scan of a line: `:` ends a field, and a backslash makes the next
/// character, `:` or `\` included, part of the field.
pub open spec fn scan(line: Seq<char>) -> ScanState
    decreases line.len(),
{
    if line.len() == 0 {
        ScanState { done: Seq::empty(), current: Seq::empty(), escaped: false }
    } else {
        let s = scan(line.drop_last());
        let c = line.last();
        if s.escaped {
            ScanState { current: s.current.push(c), escaped: false, ..s }
        } else if c == '\\' {
            ScanState { escaped: true, ..s }
        } else if c == ':' {
            ScanState { done: s.done.push(s.current), current: Seq::empty(), escaped: false }
        } else {
            ScanState { current: s.current.push(c), ..s }
        }
    }
}

/// The fields of a terse output line.
pub open spec fn fields(line: Seq<char>) -> Seq<Seq<char>> {
    scan(line).done.push(scan(line).current)
}

/// The fields of a terse output line, with escapes resolved.
pub fn split_fields(line: &Vec<char>) -> (r: Vec<Vec<char>>)
    ensures
        views(r@) == fields(line@),
{
    let mut done: Vec<Vec<char>> = Vec::new();
    let mut current: Vec<char> = Vec::new();
    let mut escaped = false;
    let n = line.len();
    let mut i: usize = 0;
    while i < n
        invariant
            n == line@.len(),
            i <= n,
            views(done@) == scan(line@.take(i as int)).done,
            current@ == scan(line@.take(i as int)).current,
            escaped == scan(line@.take(i as int)).escaped,
        decreases n - i,
    {
        assert(line@.take(i + 1).drop_last() =~= line@.take(i as int));
        assert(line@.take(i + 1).last() == line@[i as int]);
        let c = line[i];
        if escaped {
            current.push(c);
            escaped = false;
        } else if c == '\\' {
            escaped = true;
        } else if c == ':' {
            let ghost before = views(done@);
            let field = current;
            done.push(field);
            current = Vec::new();
            assert(views(done@) =~= before.push(field@));
        } else {
            current.push(c);
        }
        i = i + 1;
    }
    assert(line@.take(n as int) =~= line@);
    let ghost before = views(done@);
    let last = current;
    done.push(last);
    assert(views(done@) =~= before.push(last@));
    done
}

pub open spec fn is_digit(c: char) -> bool {
    0x30 <= c as u32 <= 0x39
}

/// The value of a run of decimal digits.
pub open spec fn digits_value(s: Seq<char>) -> int
    decreases s.len(),
{
    if s.len() == 0 {
        0
    } else {
        10 * digits_value(s.drop_last()) + (s.last() as u32 - 0x30)
    }
}

/// The length of a leading sign, `-` or `+`.
pub open spec fn sign_len(s: Seq<char>) -> int {
    if s.len() > 0 && (s[0] == '-' || s[0] == '+') {
        1
    } else {
        0
    }
}

pub open spec fn all_digits(b: Seq<char>) -> bool {
    forall|i: int| 0 <= i < b.len() ==> is_digit(#[trigger] b[i])
}

/// What `str::parse::<i32>` gives: an optional sign, then one or more
/// decimal digits, of a value that fits.
pub open spec fn parse_i32_spec(s: Seq<char>) -> Option<int> {
    let body = s.subrange(sign_len(s), s.len() as int);
    let v = if s.len() > 0 && s[0] == '-' {
        -digits_value(body)
    } else {
        digits_value(body)
    };
    if body.len() == 0 || !all_digits(body) || v < i32::MIN || v > i32::MAX {
        None
    } else {
        Some(v)
    }
}

/// Adding digits never lowers the value.
pub proof fn lemma_digits_value_grows(s: Seq<char>, k: int)
    requires
        0 <= k <= s.len(),
        forall|i: int| 0 <= i < s.len() ==> is_digit(#[trigger] s[i]),
    ensures
        digits_value(s.take(k)) <= digits_value(s),
        0 <= digits_value(s.take(k)),
    decreases s.len(),
{
    if s.len() > 0 {
        if k == s.len() {
            assert(s.take(k) =~= s);
            let t = s.drop_last();
            lemma_digits_value_grows(t, t.len() as int);
            assert(t.take(t.len() as int) =~= t);
        } else {
            let t = s.drop_last();
            assert(s.take(k) =~= t.take(k));
            lemma_digits_value_grows(t, k);
            lemma_digits_value_grows(t, t.len() as int);
            assert(t.take(t.len() as int) =~= t);
        }
    } else {
        assert(s.take(k) =~= s);
    }
}

/// A decimal integer, as `str::parse::<i32>` reads it.
pub fn parse_i32(s: &Vec<char>) -> (r: Option<i32>)
    ensures
        match r {
            Some(v) => parse_i32_spec(s@) == Some(v as int),
            None => parse_i32_spec(s@) is None,
        },
{
    let n = s.len();
    let neg = n > 0 && s[0] == '-';
    let start: usize = if n > 0 && (s[0] == '-' || s[0] == '+') {
        1
    } else {
        0
    };
    let ghost body = s@.subrange(start as int, n as int);
    assert(start == sign_len(s@));
    if start == n {
        return None;
    }
    let mut acc: i64 = 0;
    let mut k: usize = start;
    while k < n
        invariant
            start <= k <= n == s@.len(),
            start == sign_len(s@),
            neg == (s@.len() > 0 && s@[0] == '-'),
            body == s@.subrange(start as int, n as int),
            forall|i: int| 0 <= i < k - start ==> is_digit(#[trigger] body[i]),
            acc == digits_value(body.take(k - start)),
            0 <= acc <= 0x8000_0000,
        decreases n - k,
    {
        let c = s[k];
        let u = c as u32;
        assert(body[k - start] == c);
        if u < 0x30 || u > 0x39 {
            assert(!is_digit(body[k - start]));
            assert(!all_digits(body));
            return None;
        }
        assert(body.take(k - start + 1).drop_last() =~= body.take(k - start));
        assert(body.take(k - start + 1).last() == c);
        acc = 10 * acc + (u - 0x30) as i64;
        assert(acc == digits_value(body.take(k - start + 1)));
        if acc > 0x8000_0000 {
            proof {
                if all_digits(body) {
                    lemma_digits_value_grows(body, k - start + 1);
                    assert(digits_value(body) > 0x8000_0000);
                }
            }
            return None;
        }
        k = k + 1;
    }
    assert(body.take(n - start) =~= body);
    if neg {
        Some((-acc) as i32)
    } else if acc <= 0x7fff_ffff {
        Some(acc as i32)
    } else {
        None
    }
}

/// The signal strength that a network without a readable one is given.
pub const DEFAULT_SIGNAL: i32 = 50;

pub open spec fn signal_of(s: Seq<char>) -> int {
    match parse_i32_spec(s) {
        Some(v) => v,
        None => DEFAULT_SIGNAL as int,
    }
}

/// The placeholder that the listing writes for an empty field.
pub open spec fn dashes() -> Seq<char> {
    seq!['-', '-']
}

/// The network of one listing line `SSID:BSSID:SIGNAL:SECURITY`, given the
/// SSID now connected and the text that lists saved connections; none for a
/// line with too few fields or without an SSID.
pub open spec fn candidate(fs: Seq<Seq<char>>, current: Seq<char>, known: Seq<char>) -> Option<
    NetworkView,
> {
    if fs.len() < 4 || fs[0].len() == 0 || fs[0] == dashes() {
        None
    } else {
        Some(
            NetworkView {
                ssid: fs[0],
                bssid: fs[1],
                signal: signal_of(fs[2]),
                secured: fs[3].len() > 0 && fs[3] != dashes(),
                connected: current.len() > 0 && fs[0] == current,
                known: contains_seq(known, fs[0]),
            },
        )
    }
}

pub open spec fn has_ssid(ns: Seq<NetworkView>, ssid: Seq<char>) -> bool {
    exists|i: int| 0 <= i < ns.len() && ns[i].ssid == ssid
}

/// The networks of the listing lines, in order, each SSID once: the first
/// line that names it wins.
pub open spec fn collect(lines: Seq<Seq<char>>, current: Seq<char>, known: Seq<char>) -> Seq<
    NetworkView,
>
    decreases lines.len(),
{
    if lines.len() == 0 {
        Seq::empty()
    } else {
        let p = collect(lines.drop_last(), current, known);
        match candidate(fields(lines.last()), current, known) {
            Some(n) => if has_ssid(p, n.ssid) {
                p
            } else {
                p.push(n)
            },
            None => p,
        }
    }
}

/// `a` is listed before `b`: a connected network before any other, then the
/// stronger signal first.
pub open spec fn ranks_before(a: NetworkView, b: NetworkView) -> bool {
    (a.connected && !b.connected) || (a.connected == b.connected && a.signal > b.signal)
}

/// `x` put into the ordered list `p` after every entry that it does not
/// rank before.
pub open spec fn insert_ranked(p: Seq<NetworkView>, x: NetworkView) -> Seq<NetworkView>
    decreases p.len(),
{
    if p.len() == 0 {
        seq![x]
    } else if ranks_before(x, p.last()) {
        insert_ranked(p.drop_last(), x).push(p.last())
    } else {
        p.push(x)
    }
}

/// The networks in rank order; networks that rank alike keep their order
/// (the order a stable sort gives).
pub open spec fn ranked(s: Seq<NetworkView>) -> Seq<NetworkView>
    decreases s.len(),
{
    if s.len() == 0 {
        Seq::empty()
    } else {
        insert_ranked(ranked(s.drop_last()), s.last())
    }
}

/// The network list of a listing, given the (untrimmed) SSID now connected
/// and the text that lists saved connections.
pub open spec fn network_list_spec(output: Seq<char>, current: Seq<char>, known: Seq<char>) -> Seq<
    NetworkView,
> {
    ranked(collect(text_lines(output), trim(current), known))
}

fn ranks_before_exec(a: &WiFiNetwork, b: &WiFiNetwork) -> (r: bool)
    ensures
        r == ranks_before(a@, b@),
{
    (a.connected && !b.connected) || (a.connected == b.connected && a.signal > b.signal)
}

/// Puts `x` into the ordered list `p` at its rank.
fn insert_at_rank(p: &mut Vec<WiFiNetwork>, x: WiFiNetwork)
    ensures
        network_views(final(p)@) == insert_ranked(network_views(old(p)@), x@),
{
    let ghost s = network_views(p@);
    let mut pos = p.len();
    assert(s.subrange(pos as int, s.len() as int) =~= Seq::<NetworkView>::empty());
    assert(s.take(pos as int) =~= s);
    while pos > 0 && ranks_before_exec(&x, &p[pos - 1])
        invariant
            pos <= p@.len(),
            s == network_views(p@),
            insert_ranked(s, x@) == insert_ranked(s.take(pos as int), x@) + s.subrange(
                pos as int,
                s.len() as int,
            ),
        decreases pos,
    {
        let ghost t = s.take(pos as int);
        assert(t.drop_last() =~= s.take(pos - 1));
        assert(t.last() == s[pos - 1]);
        assert(s.subrange(pos - 1, s.len() as int) =~= seq![s[pos - 1]] + s.subrange(
            pos as int,
            s.len() as int,
        ));
        assert(insert_ranked(s.take(pos - 1), x@).push(s[pos - 1]) + s.subrange(
            pos as int,
            s.len() as int,
        ) =~= insert_ranked(s.take(pos - 1), x@) + s.subrange(pos - 1, s.len() as int));
        pos = pos - 1;
    }
    let ghost xv = x@;
    p.insert(pos, x);
    assert(network_views(p@) =~= s.take(pos as int).push(xv) + s.subrange(
        pos as int,
        s.len() as int,
    ));
}

/// The network list of a listing, in rank order.
pub fn network_list(output: &str, current_ssid: &str, known_networks: &str) -> (r: Vec<
    WiFiNetwork,
>)
    ensures
        network_views(r@) == network_list_spec(output@, current_ssid@, known_networks@),
{
    let found = collect_networks(output, current_ssid, known_networks);
    let ghost c = network_views(found@);
    let mut out: Vec<WiFiNetwork> = Vec::new();
    let n = found.len();
    let mut i: usize = 0;
    while i < n
        invariant
            n == found@.len(),
            c == network_views(found@),
            i <= n,
            network_views(out@) == ranked(c.take(i as int)),
        decreases n - i,
    {
        assert(c.take(i + 1).drop_last() =~= c.take(i as int));
        assert(c.take(i + 1).last() == found@[i as int]@);
        insert_at_rank(&mut out, found[i].duplicate());
        i = i + 1;
    }
    assert(c.take(n as int) =~= c);
    out
}

/// Whether a network with this SSID is in the list.
fn listed(nets: &Vec<WiFiNetwork>, ssid: &String) -> (r: bool)
    ensures
        r == has_ssid(network_views(nets@), ssid@),
{
    let ghost ns = network_views(nets@);
    let n = nets.len();
    let mut i: usize = 0;
    while i < n
        invariant
            n == nets@.len(),
            ns == network_views(nets@),
            i <= n,
            forall|j: int| 0 <= j < i ==> ns[j].ssid != ssid@,
        decreases n - i,
    {
        if nets[i].ssid == *ssid {
            assert(ns[i as int].ssid == ssid@);
            return true;
        }
        i = i + 1;
    }
    false
}

/// The networks of a listing in the order of its lines, each SSID once.
pub fn collect_networks(output: &str, current_ssid: &str, known_networks: &str) -> (r: Vec<
    WiFiNetwork,
>)
    ensures
        network_views(r@) == collect(text_lines(output@), trim(current_ssid@), known_networks@),
{
    let text = chars_of(output);
    let lines = lines_chars(&text);
    let current = trim_chars(&chars_of(current_ssid));
    let known = chars_of(known_networks);
    let dash: Vec<char> = vec!['-', '-'];
    assert(dash@ =~= dashes());
    let ghost ls = views(lines@);
    let ghost cur = trim(current_ssid@);
    let mut nets: Vec<WiFiNetwork> = Vec::new();
    let n = lines.len();
    let mut i: usize = 0;
    while i < n
        invariant
            n == lines@.len(),
            ls == views(lines@),
            ls == text_lines(output@),
            cur == current@,
            known@ == known_networks@,
            dash@ == dashes(),
            i <= n,
            network_views(nets@) == collect(ls.take(i as int), cur, known@),
        decreases n - i,
    {
        assert(ls.take(i + 1).drop_last() =~= ls.take(i as int));
        assert(ls.take(i + 1).last() == ls[i as int]);
        let ghost before = network_views(nets@);
        let fs = split_fields(&lines[i]);
        let ghost fv = views(fs@);
        if fs.len() >= 4 && fs[0].len() > 0 && !same_chars(&fs[0], &dash) {
            let ssid = string_from_chars(&fs[0]);
            let signal = match parse_i32(&fs[2]) {
                Some(v) => v,
                None => DEFAULT_SIGNAL,
            };
            let net = WiFiNetwork {
                ssid,
                bssid: string_from_chars(&fs[1]),
                signal,
                secured: fs[3].len() > 0 && !same_chars(&fs[3], &dash),
                connected: current.len() > 0 && same_chars(&fs[0], &current),
                known: contains_chars(&known, &fs[0]),
            };
            assert(candidate(fv, cur, known@) == Some(net@));
            if !listed(&nets, &net.ssid) {
                let ghost nv = net@;
                nets.push(net);
                assert(network_views(nets@) =~= before.push(nv));
            }
        }
        i = i + 1;
    }
    assert(ls.take(n as int) =~= ls);
    nets
}

/// Whether the radio status that the network manager reports says enabled.
pub fn wifi_enabled(radio_status: &str) -> (r: bool)
    ensures
        r == contains_seq(radio_status@, "enabled"@),
{
    contains_chars(&chars_of(radio_status), &chars_of("enabled"))
}

} // verus!
