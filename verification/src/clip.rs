//! Byte-bounded prefixes of character sequences.
//!
//! A name derived from list content is clipped to a fixed number of bytes of
//! its UTF-8 form before it is embedded in an identifier.  Clipping text at a
//! byte count is only meaningful when that count falls on a character
//! boundary; `clip_is_clean` decides that, and `clipped` names the prefix
//! that is kept.

use vstd::prelude::*;

verus! {

/// The number of bytes of the UTF-8 encoding of one character.
pub open spec fn utf8_len(c: char) -> nat {
    if (c as u32) < 0x80 {
        1
    } else if (c as u32) < 0x800 {
        2
    } else if (c as u32) < 0x10000 {
        3
    } else {
        4
    }
}

/// The number of bytes of the UTF-8 encoding of a character sequence.
pub open spec fn utf8_size(s: Seq<char>) -> nat
    decreases s.len(),
{
    if s.len() == 0 {
        0
    } else {
        utf8_size(s.drop_last()) + utf8_len(s.last())
    }
}

/// The length in characters of the longest prefix whose UTF-8 form fits in
/// `max` bytes.
pub open spec fn clipped_len(s: Seq<char>, max: nat) -> nat
    decreases s.len(),
{
    if s.len() == 0 {
        0
    } else if utf8_size(s) <= max {
        s.len()
    } else {
        clipped_len(s.drop_last(), max)
    }
}

/// The longest prefix whose UTF-8 form fits in `max` bytes.
pub open spec fn clipped(s: Seq<char>, max: nat) -> Seq<char> {
    s.take(clipped_len(s, max) as int)
}

/// Whether clipping `s` to `max` bytes falls on a character boundary: either
/// the whole text fits, or the kept prefix is exactly `max` bytes.
pub open spec fn clip_is_clean(s: Seq<char>, max: nat) -> bool {
    utf8_size(s) <= max || utf8_size(clipped(s, max)) == max
}

/// Extending a prefix by one character adds that character's bytes.
proof fn lemma_utf8_size_take_succ(s: Seq<char>, i: int)
    requires
        0 <= i < s.len(),
    ensures
        utf8_size(s.take(i + 1)) == utf8_size(s.take(i)) + utf8_len(s[i]),
{
    assert(s.take(i + 1).drop_last() =~= s.take(i));
    assert(s.take(i + 1).last() == s[i]);
}

/// A longer prefix never takes fewer bytes.
proof fn lemma_utf8_size_take_mono(s: Seq<char>, k1: int, k2: int)
    requires
        0 <= k1 <= k2 <= s.len(),
    ensures
        utf8_size(s.take(k1)) <= utf8_size(s.take(k2)),
    decreases k2 - k1,
{
    if k1 < k2 {
        lemma_utf8_size_take_mono(s, k1, k2 - 1);
        lemma_utf8_size_take_succ(s, k2 - 1);
    }
}

/// What `clipped_len` returns: a prefix that fits, which the next character
/// (if any) would overflow.
proof fn lemma_clipped_len_bounds(s: Seq<char>, max: nat)
    ensures
        clipped_len(s, max) <= s.len(),
        utf8_size(s.take(clipped_len(s, max) as int)) <= max,
        clipped_len(s, max) < s.len() ==> utf8_size(
            s.take(clipped_len(s, max) + 1 as int),
        ) > max,
    decreases s.len(),
{
    if s.len() == 0 {
    } else if utf8_size(s) <= max {
        assert(s.take(s.len() as int) =~= s);
    } else {
        let prev = s.drop_last();
        lemma_clipped_len_bounds(prev, max);
        let r = clipped_len(prev, max) as int;
        assert(prev.take(r) =~= s.take(r));
        if r < prev.len() {
            assert(prev.take(r + 1) =~= s.take(r + 1));
        } else {
            assert(s.take(r + 1) =~= s);
        }
    }
}

/// Any index with the fit-and-overflow property of `lemma_clipped_len_bounds`
/// is `clipped_len` itself.
proof fn lemma_clipped_len_unique(s: Seq<char>, max: nat, k: int)
    requires
        0 <= k <= s.len(),
        utf8_size(s.take(k)) <= max,
        k < s.len() ==> utf8_size(s.take(k + 1)) > max,
    ensures
        clipped_len(s, max) == k,
{
    lemma_clipped_len_bounds(s, max);
    let r = clipped_len(s, max) as int;
    if r < k {
        lemma_utf8_size_take_mono(s, r + 1, k);
    } else if k < r {
        lemma_utf8_size_take_mono(s, k + 1, r);
    }
}

/// The UTF-8 byte count of one character.
pub fn utf8_len_of(c: char) -> (r: usize)
    ensures
        r == utf8_len(c),
{
    let u: u32 = c as u32;
    if u < 0x80 {
        1
    } else if u < 0x800 {
        2
    } else if u < 0x10000 {
        3
    } else {
        4
    }
}

/// The length in characters of the longest prefix of `s` whose UTF-8 form
/// fits in `max` bytes, with the byte count of that prefix.
pub fn clip_point(s: &Vec<char>, max: usize) -> (r: (usize, usize))
    requires
        max + 4 <= usize::MAX,
    ensures
        r.0 == clipped_len(s@, max as nat),
        r.1 == utf8_size(clipped(s@, max as nat)),
{
    let mut i: usize = 0;
    let mut size: usize = 0;
    loop
        invariant
            i <= s@.len(),
            max + 4 <= usize::MAX,
            size == utf8_size(s@.take(i as int)),
            size <= max,
        ensures
            i <= s@.len(),
            size == utf8_size(s@.take(i as int)),
            size <= max,
            i == s@.len() || size + utf8_len(s@[i as int]) > max,
        decreases s@.len() - i,
    {
        if i >= s.len() {
            break ;
        }
        let l: usize = utf8_len_of(s[i]);
        if size + l > max {
            break ;
        }
        proof {
            lemma_utf8_size_take_succ(s@, i as int);
        }
        size = size + l;
        i = i + 1;
    }
    proof {
        if i < s@.len() {
            lemma_utf8_size_take_succ(s@, i as int);
        } else {
            assert(s@.take(i as int) =~= s@);
        }
        lemma_clipped_len_unique(s@, max as nat, i as int);
    }
    (i, size)
}

/// Whether clipping `s` to `max` bytes is clean, as `clip_is_clean` says.
pub fn check_clip_clean(s: &Vec<char>, max: usize) -> (r: bool)
    requires
        max + 4 <= usize::MAX,
    ensures
        r == clip_is_clean(s@, max as nat),
{
    let (end, size) = clip_point(s, max);
    proof {
        lemma_clipped_len_bounds(s@, max as nat);
        if end == s@.len() {
            assert(s@.take(end as int) =~= s@);
        }
    }
    end == s.len() || size == max
}

/// The clipped prefix itself.
pub fn clip_chars(s: &Vec<char>, max: usize) -> (r: Vec<char>)
    requires
        max + 4 <= usize::MAX,
    ensures
        r@ == clipped(s@, max as nat),
{
    let (end, _size) = clip_point(s, max);
    proof {
        lemma_clipped_len_bounds(s@, max as nat);
    }
    let mut r: Vec<char> = Vec::new();
    let mut i: usize = 0;
    while i < end
        invariant
            i <= end,
            end <= s@.len(),
            r@ == s@.take(i as int),
        decreases end - i,
    {
        r.push(s[i]);
        i = i + 1;
        proof {
            assert(s@.take(i as int) =~= s@.take(i - 1).push(s@[i - 1]));
        }
    }
    r
}

} // verus!
