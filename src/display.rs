//! Plain-text pieces that a renderer puts on screen.

use vstd::prelude::*;
use vstd::string::{StrSliceExecFns, StringExecFns};
use crate::models::{one_decimal, round_half_even};
use crate::text::{decimal_string, push_char};

verus! {

/// `s` cut to at most `max_len` characters; a cut text ends in '~'.
pub open spec fn truncated(s: Seq<char>, max_len: nat) -> Seq<char> {
    if s.len() > max_len {
        s.subrange(0, max_len - 1).push('~')
    } else {
        s
    }
}

pub fn truncate(s: &str, max_len: usize) -> (r: String)
    requires
        max_len > 0,
    ensures
        r@ == truncated(s@, max_len as nat),
{
    let n = s.unicode_len();
    if n > max_len {
        let mut r = String::from_str(s.substring_char(0, max_len - 1));
        push_char(&mut r, '~');
        r
    } else {
        String::from_str(s)
    }
}

/// How many of `width` cells a bar for `percent` hundredths of a percent
/// fills: `percent / 100 * width` rounded, halves upward, and at most all
/// of them.
pub open spec fn filled_cells(percent: nat, width: nat) -> nat {
    let f = (percent * width + 5000) / 10000;
    if f > width {
        width
    } else {
        f
    }
}

/// A bar of `width` cells between brackets: '=' for each filled cell, ' '
/// for each empty one.
pub open spec fn mini_bar_text(percent: nat, width: nat) -> Seq<char> {
    let filled = filled_cells(percent, width);
    seq!['['] + Seq::new(filled, |i: int| '=') + Seq::new((width - filled) as nat, |i: int| ' ')
        + seq![']']
}

fn push_repeated(s: &mut String, c: char, n: u64)
    ensures
        final(s)@ == old(s)@ + Seq::new(n as nat, |i: int| c),
{
    let mut i: u64 = 0;
    while i < n
        invariant
            i <= n,
            s@ == old(s)@ + Seq::new(i as nat, |k: int| c),
        decreases n - i,
    {
        push_char(s, c);
        i += 1;
        assert(s@ =~= old(s)@ + Seq::new(i as nat, |k: int| c));
    }
}

pub fn mini_bar(percent: u64, width: u16) -> (r: String)
    ensures
        r@ == mini_bar_text(percent as nat, width as nat),
{
    let w = width as u128;
    assert((percent as u128) * w <= (u64::MAX as u128) * 0xFFFF) by (nonlinear_arith)
        requires w <= 0xFFFF;
    let f = ((percent as u128) * w + 5000) / 10000;
    let filled = if f > w { w } else { f };
    let empty = w - filled;
    let mut r = String::new();
    push_char(&mut r, '[');
    push_repeated(&mut r, '=', filled as u64);
    push_repeated(&mut r, ' ', empty as u64);
    push_char(&mut r, ']');
    assert(r@ =~= mini_bar_text(percent as nat, width as nat));
    r
}

/// How loaded a resource is.
#[derive(Debug, Clone, Copy, PartialEq, Eq, Structural)]
pub enum Level {
    Normal,
    Warning,
    Critical,
}

/// Critical from 90%, Warning from 70%, else Normal.
pub open spec fn level_of(percent: nat) -> Level {
    if percent >= 9000 {
        Level::Critical
    } else if percent >= 7000 {
        Level::Warning
    } else {
        Level::Normal
    }
}

/// The load level of `percent` hundredths of a percent.
pub fn load_level(percent: u128) -> (r: Level)
    ensures
        r == level_of(percent as nat),
{
    if percent >= 9000 {
        Level::Critical
    } else if percent >= 7000 {
        Level::Warning
    } else {
        Level::Normal
    }
}

/// Whole percent for a gauge, at most 100.
pub fn gauge_percent(percent: u128) -> (r: u16)
    ensures
        r as nat == if percent / 100 > 100 { 100 } else { percent as nat / 100 },
{
    if percent / 100 > 100 {
        100
    } else {
        (percent / 100) as u16
    }
}

/// A percentage in hundredths written with one decimal place and a '%'.
pub open spec fn percent_text(percent: nat) -> Seq<char> {
    one_decimal(round_half_even(percent, 10)) + "%"@
}

pub fn format_percent(percent: u64) -> (r: String)
    ensures
        r@ == percent_text(percent as nat),
{
    let q = percent / 10;
    let rem = percent % 10;
    let t = if rem > 5 || (rem == 5 && q % 2 == 1) { q + 1 } else { q };
    let mut r = decimal_string(t / 10);
    r.append(".");
    r.append(decimal_string(t % 10).as_str());
    r.append("%");
    r
}

} // verus!
