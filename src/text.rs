//! Character-level helpers shared by the model and the view state.

use vstd::prelude::*;
use vstd::string::{StrSliceExecFns, StringExecFns};

verus! {

/// The ASCII digit for `d` (which must be below ten).
pub open spec fn digit_char(d: nat) -> char {
    if d == 0 { '0' }
    else if d == 1 { '1' }
    else if d == 2 { '2' }
    else if d == 3 { '3' }
    else if d == 4 { '4' }
    else if d == 5 { '5' }
    else if d == 6 { '6' }
    else if d == 7 { '7' }
    else if d == 8 { '8' }
    else { '9' }
}

/// The decimal representation of `n`, without sign or leading zeros.
pub open spec fn decimal(n: nat) -> Seq<char>
    decreases n,
{
    if n < 10 {
        seq![digit_char(n)]
    } else {
        decimal(n / 10).push(digit_char(n % 10))
    }
}

/// Relies on `ToString::to_string` for `u64`, which writes the number in
/// decimal digits through its `Display` impl.
#[verifier::external_body]
pub(crate) fn decimal_string(n: u64) -> (r: String)
    ensures
        r@ == decimal(n as nat),
{
    n.to_string()
}

/// What `str::to_lowercase` gives for a string: the lowercase mapping of
/// each of its characters.
pub uninterp spec fn lower_of(s: Seq<char>) -> Seq<char>;

/// Relies on `str::to_lowercase`: the result depends on the characters
/// alone, and the empty string stays empty.
#[verifier::external_body]
pub(crate) fn lowercase(s: &str) -> (r: String)
    ensures
        r@ == lower_of(s@),
        s@.len() == 0 ==> r@.len() == 0,
{
    s.to_lowercase()
}

/// Relies on `String::push`: appends one character at the end.
#[verifier::external_body]
pub(crate) fn push_char(s: &mut String, c: char)
    ensures
        final(s)@ == old(s)@.push(c),
{
    s.push(c)
}

/// Relies on `String::pop`: removes and returns the last character, or
/// returns `None` on an empty string.
#[verifier::external_body]
pub(crate) fn pop_char(s: &mut String) -> (r: Option<char>)
    ensures
        old(s)@.len() == 0 ==> r is None && final(s)@ == old(s)@,
        old(s)@.len() > 0 ==> r == Some(old(s)@.last()) && final(s)@ == old(s)@.drop_last(),
{
    s.pop()
}

/// Whether two texts hold the same characters.
pub fn same_text(a: &str, b: &str) -> (r: bool)
    ensures
        r == (a@ == b@),
{
    String::from_str(a) == String::from_str(b)
}

/// `needle` stands in `hay` starting at position `i`.
pub open spec fn occurs_at(hay: Seq<char>, needle: Seq<char>, i: int) -> bool {
    0 <= i && i + needle.len() <= hay.len() && hay.subrange(i, i + needle.len()) == needle
}

/// `needle` is a contiguous piece of `hay` (the empty needle is a piece of
/// every text).
pub open spec fn contains_seq(hay: Seq<char>, needle: Seq<char>) -> bool {
    exists|i: int| occurs_at(hay, needle, i)
}

/// The characters of `s`, one per element.
pub fn chars_of(s: &str) -> (r: Vec<char>)
    ensures
        r@ == s@,
{
    let n = s.unicode_len();
    let mut r: Vec<char> = Vec::new();
    let mut i: usize = 0;
    while i < n
        invariant
            n == s@.len(),
            i <= n,
            r@ == s@.subrange(0, i as int),
        decreases n - i,
    {
        r.push(s.get_char(i));
        i += 1;
    }
    assert(r@ =~= s@);
    r
}

/// Whether `needle` stands somewhere in `hay`, compared character by
/// character.
pub fn text_contains(hay: &str, needle: &str) -> (r: bool)
    ensures
        r == contains_seq(hay@, needle@),
{
    let h = chars_of(hay);
    let nd = chars_of(needle);
    let n = h.len();
    let m = nd.len();
    if m > n {
        assert forall|k: int| !occurs_at(hay@, needle@, k) by {}
        return false;
    }
    let mut i: usize = 0;
    while i <= n - m
        invariant
            h@ == hay@,
            nd@ == needle@,
            n == h@.len(),
            m == nd@.len(),
            m <= n,
            i <= n - m + 1,
            forall|k: int| 0 <= k < i ==> !occurs_at(hay@, needle@, k),
        decreases n - m + 1 - i,
    {
        let mut j: usize = 0;
        while j < m && h[i + j] == nd[j]
            invariant
                h@ == hay@,
                nd@ == needle@,
                n == h@.len(),
                m == nd@.len(),
                i + m <= n,
                j <= m,
                h@.subrange(i as int, i + j) =~= nd@.subrange(0, j as int),
            decreases m - j,
        {
            j += 1;
        }
        if j == m {
            assert(nd@.subrange(0, m as int) =~= nd@);
            assert(occurs_at(hay@, needle@, i as int));
            return true;
        }
        assert(!occurs_at(hay@, needle@, i as int)) by {
            if occurs_at(hay@, needle@, i as int) {
                assert(hay@.subrange(i as int, i + m)[j as int] == needle@[j as int]);
            }
        }
        i += 1;
    }
    assert forall|k: int| !occurs_at(hay@, needle@, k) by {
        if 0 <= k < i {
        }
    }
    false
}

} // verus!
