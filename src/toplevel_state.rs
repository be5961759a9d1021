//! Decoding of a toplevel's `state` array: a run of 32-bit tokens, each one a
//! flag that the window has.

use vstd::prelude::*;

verus! {

/// The token that says a window has the keyboard focus.
pub const ACTIVATED: u32 = 2;

/// The token that says a window is minimized.
pub const MINIMIZED: u32 = 1;

/// The order in which the four bytes of a token are laid out.
#[derive(Clone, Copy, Debug, PartialEq, Eq, Structural)]
pub enum ByteOrder {
    Little,
    Big,
}

/// The value of four bytes read in the given order.
pub open spec fn word(b0: u8, b1: u8, b2: u8, b3: u8, order: ByteOrder) -> int {
    match order {
        ByteOrder::Little => b0 + 0x100 * b1 + 0x1_0000 * b2 + 0x100_0000 * b3,
        ByteOrder::Big => b3 + 0x100 * b2 + 0x1_0000 * b1 + 0x100_0000 * b0,
    }
}

/// The `i`-th token of `s`.
pub open spec fn token(s: Seq<u8>, i: int, order: ByteOrder) -> int {
    word(s[4 * i], s[4 * i + 1], s[4 * i + 2], s[4 * i + 3], order)
}

/// The tokens of `s`: one per whole group of four bytes; a shorter tail is
/// no token.
pub open spec fn tokens(s: Seq<u8>, order: ByteOrder) -> Seq<int> {
    Seq::new((s.len() / 4) as nat, |i: int| token(s, i, order))
}

/// The `(activated, minimized)` pair that a state array announces: each flag
/// is set when its token occurs anywhere; other tokens mean nothing here.
pub open spec fn state_flags(s: Seq<u8>, order: ByteOrder) -> (bool, bool) {
    (tokens(s, order).contains(ACTIVATED as int), tokens(s, order).contains(MINIMIZED as int))
}

/// Relies on `u32::from_ne_bytes`: the bytes read in the machine's own order,
/// which is either little- or big-endian.
#[verifier::external_body]
fn u32_from_ne_bytes(b0: u8, b1: u8, b2: u8, b3: u8) -> (r: u32)
    ensures
        r == word(b0, b1, b2, b3, ByteOrder::Little) || r == word(
            b0,
            b1,
            b2,
            b3,
            ByteOrder::Big,
        ),
{
    u32::from_ne_bytes([b0, b1, b2, b3])
}

/// The order in which this machine lays out the bytes of an integer; the
/// compositor writes its tokens in that order.
pub fn native_byte_order() -> ByteOrder {
    if u32_from_ne_bytes(1, 0, 0, 0) == 1 {
        ByteOrder::Little
    } else {
        ByteOrder::Big
    }
}

fn read_token(bytes: &[u8], i: usize, order: ByteOrder) -> (r: u32)
    requires
        4 * i + 4 <= bytes.len(),
    ensures
        r == token(bytes@, i as int, order),
{
    let b0 = bytes[4 * i] as u32;
    let b1 = bytes[4 * i + 1] as u32;
    let b2 = bytes[4 * i + 2] as u32;
    let b3 = bytes[4 * i + 3] as u32;
    match order {
        ByteOrder::Little => b0 + 0x100 * b1 + 0x1_0000 * b2 + 0x100_0000 * b3,
        ByteOrder::Big => b3 + 0x100 * b2 + 0x1_0000 * b1 + 0x100_0000 * b0,
    }
}

/// The flags that a state array announces, its tokens read in `order`.
pub fn decode_state(bytes: &[u8], order: ByteOrder) -> (r: (bool, bool))
    ensures
        r == state_flags(bytes@, order),
{
    let ghost ts = tokens(bytes@, order);
    let n = bytes.len() / 4;
    let mut activated = false;
    let mut minimized = false;
    let mut i: usize = 0;
    while i < n
        invariant
            n == bytes@.len() / 4,
            i <= n,
            ts == tokens(bytes@, order),
            activated == (exists|j: int| 0 <= j < i && ts[j] == ACTIVATED as int),
            minimized == (exists|j: int| 0 <= j < i && ts[j] == MINIMIZED as int),
        decreases n - i,
    {
        let t = read_token(bytes, i, order);
        assert(ts[i as int] == t);
        if t == ACTIVATED {
            activated = true;
        }
        if t == MINIMIZED {
            minimized = true;
        }
        i = i + 1;
    }
    proof {
        if ts.contains(ACTIVATED as int) {
            let j = choose|j: int| 0 <= j < ts.len() && ts[j] == ACTIVATED as int;
            assert(0 <= j < i && ts[j] == ACTIVATED as int);
        }
        if ts.contains(MINIMIZED as int) {
            let j = choose|j: int| 0 <= j < ts.len() && ts[j] == MINIMIZED as int;
            assert(0 <= j < i && ts[j] == MINIMIZED as int);
        }
    }
    (activated, minimized)
}

/// The `(activated, minimized)` flags of a state array as the compositor
/// sends it, in this machine's byte order.
pub fn parse_state(state_bytes: &[u8]) -> (r: (bool, bool))
    ensures
        r == state_flags(state_bytes@, ByteOrder::Little) || r == state_flags(
            state_bytes@,
            ByteOrder::Big,
        ),
{
    decode_state(state_bytes, native_byte_order())
}

/// The decoded flags depend only on which tokens occur in a state array: two
/// arrays with the same set of tokens, in any order and with any repetition,
/// decode alike.
pub proof fn lemma_state_flags_depend_on_token_set(s1: Seq<u8>, s2: Seq<u8>, order: ByteOrder)
    requires
        tokens(s1, order).to_set() == tokens(s2, order).to_set(),
    ensures
        state_flags(s1, order) == state_flags(s2, order),
{
    let t1 = tokens(s1, order);
    let t2 = tokens(s2, order);
    assert(t1.to_set().contains(ACTIVATED as int) == t1.contains(ACTIVATED as int));
    assert(t2.to_set().contains(ACTIVATED as int) == t2.contains(ACTIVATED as int));
    assert(t1.to_set().contains(MINIMIZED as int) == t1.contains(MINIMIZED as int));
    assert(t2.to_set().contains(MINIMIZED as int) == t2.contains(MINIMIZED as int));
}

} // verus!
