//! Persistent per-install identifiers sent to media servers (the Plex client
//! identifier and the Jellyfin device id): reusing a stored id, and rendering
//! a fresh one from random numbers.
//!
//! Reading and writing the id file and drawing the random numbers are done by
//! the application shell.

use vstd::prelude::*;
use crate::text::{chars_of, push_char, trim_bounds, trimmed};

verus! {

/// The lowercase hexadecimal digit for `d` (`0..16`).
pub open spec fn hex_char(d: int) -> char {
    if d == 0 {
        '0'
    } else if d == 1 {
        '1'
    } else if d == 2 {
        '2'
    } else if d == 3 {
        '3'
    } else if d == 4 {
        '4'
    } else if d == 5 {
        '5'
    } else if d == 6 {
        '6'
    } else if d == 7 {
        '7'
    } else if d == 8 {
        '8'
    } else if d == 9 {
        '9'
    } else if d == 10 {
        'a'
    } else if d == 11 {
        'b'
    } else if d == 12 {
        'c'
    } else if d == 13 {
        'd'
    } else if d == 14 {
        'e'
    } else {
        'f'
    }
}

/// The last `w` hexadecimal digits of `n`, most significant first. For
/// `n < 16^w` this is `n` printed as zero-padded lowercase hex of width `w`.
pub open spec fn hex_fixed(n: nat, w: nat) -> Seq<char>
    decreases w,
{
    if w == 0 {
        Seq::empty()
    } else {
        hex_fixed(n / 16, (w - 1) as nat).push(hex_char((n % 16) as int))
    }
}

fn hex_digit(d: u64) -> (c: char)
    requires
        d < 16,
    ensures
        c == hex_char(d as int),
{
    if d == 0 {
        '0'
    } else if d == 1 {
        '1'
    } else if d == 2 {
        '2'
    } else if d == 3 {
        '3'
    } else if d == 4 {
        '4'
    } else if d == 5 {
        '5'
    } else if d == 6 {
        '6'
    } else if d == 7 {
        '7'
    } else if d == 8 {
        '8'
    } else if d == 9 {
        '9'
    } else if d == 10 {
        'a'
    } else if d == 11 {
        'b'
    } else if d == 12 {
        'c'
    } else if d == 13 {
        'd'
    } else if d == 14 {
        'e'
    } else {
        'f'
    }
}

/// Append the last `w` hexadecimal digits of `n`.
pub(crate) fn push_hex(s: &mut String, n: u64, w: u64)
    ensures
        final(s)@ == old(s)@ + hex_fixed(n as nat, w as nat),
    decreases w,
{
    if w == 0 {
        assert(old(s)@ + hex_fixed(n as nat, 0) =~= old(s)@);
        return;
    }
    push_hex(s, n / 16, w - 1);
    push_char(s, hex_digit(n % 16));
    assert(final(s)@ =~= old(s)@ + hex_fixed(n as nat, w as nat));
}

/// The identifier `reel-xxxxxxxx-xxxx-xxxx-xxxx-xxxxxxxxxxxx` rendered from
/// five random numbers (only the low 48 bits of the last one are used).
pub open spec fn identifier_spec(a: u32, b: u16, c: u16, d: u16, e: u64) -> Seq<char> {
    "reel-"@ + hex_fixed(a as nat, 8) + "-"@ + hex_fixed(b as nat, 4) + "-"@ + hex_fixed(
        c as nat,
        4,
    ) + "-"@ + hex_fixed(d as nat, 4) + "-"@ + hex_fixed((e % 0x1_0000_0000_0000) as nat, 12)
}

/// Render a fresh identifier from random numbers, in the UUID-like shape
/// `reel-{:08x}-{:04x}-{:04x}-{:04x}-{:012x}`.
pub fn format_identifier(a: u32, b: u16, c: u16, d: u16, e: u64) -> (r: String)
    ensures
        r@ == identifier_spec(a, b, c, d, e),
{
    let low = e & 0xFFFF_FFFF_FFFF;
    assert(low == e % 0x1_0000_0000_0000) by (bit_vector)
        requires
            low == e & 0xFFFF_FFFF_FFFF,
    ;
    let mut s = String::new();
    s.append("reel-");
    push_hex(&mut s, a as u64, 8);
    s.append("-");
    push_hex(&mut s, b as u64, 4);
    s.append("-");
    push_hex(&mut s, c as u64, 4);
    s.append("-");
    push_hex(&mut s, d as u64, 4);
    s.append("-");
    push_hex(&mut s, low, 12);
    assert(s@ =~= identifier_spec(a, b, c, d, e));
    s
}

/// The id stored in an identifier file: its contents trimmed, when anything is
/// left.
pub open spec fn stored_identifier_spec(contents: Seq<char>) -> Option<Seq<char>> {
    if trimmed(contents).len() > 0 {
        Some(trimmed(contents))
    } else {
        None
    }
}

/// Reuse a stored identifier: the file's contents with surrounding whitespace
/// removed, or `None` when nothing is left (a fresh id is then generated).
pub fn stored_identifier(contents: &str) -> (r: Option<String>)
    ensures
        match r {
            Some(id) => stored_identifier_spec(contents@) == Some(id@),
            None => stored_identifier_spec(contents@) is None,
        },
{
    let cs = chars_of(contents);
    let (i, j) = trim_bounds(&cs);
    if i == j {
        assert(cs@.subrange(i as int, j as int) =~= Seq::<char>::empty());
        return None;
    }
    let mut s = String::new();
    let mut k = i;
    while k < j
        invariant
            i <= k <= j <= cs@.len(),
            s@ == cs@.subrange(i as int, k as int),
        decreases j - k,
    {
        push_char(&mut s, cs[k]);
        k = k + 1;
        assert(s@ =~= cs@.subrange(i as int, k as int));
    }
    Some(s)
}

} // verus!
