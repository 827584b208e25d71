//! Comparing, trimming and searching text.

use vstd::prelude::*;
use vstd::string::StrSliceExecFns;
use vstd::utf8::encode_utf8;

verus! {

/// White space among the first 256 characters.
pub open spec fn is_white(c: char) -> bool {
    ('\u{9}' <= c && c <= '\u{d}') || c == ' ' || c == '\u{85}' || c == '\u{a0}'
}

/// `s` without the white space in front.
pub open spec fn trim_front(s: Seq<char>) -> Seq<char>
    decreases s.len(),
{
    if s.len() > 0 && is_white(s[0]) {
        trim_front(s.skip(1))
    } else {
        s
    }
}

/// `s` without the white space behind.
pub open spec fn trim_back(s: Seq<char>) -> Seq<char>
    decreases s.len(),
{
    if s.len() > 0 && is_white(s.last()) {
        trim_back(s.drop_last())
    } else {
        s
    }
}

/// `s` without the white space at both ends.
pub open spec fn trimmed(s: Seq<char>) -> Seq<char> {
    trim_back(trim_front(s))
}

fn white(c: char) -> (yes: bool)
    ensures
        yes == is_white(c),
{
    ('\u{9}' <= c && c <= '\u{d}') || c == ' ' || c == '\u{85}' || c == '\u{a0}'
}

/// `s` without the white space at both ends.
pub fn trim(s: &str) -> (t: &str)
    ensures
        t@ == trimmed(s@),
{
    let n: usize = s.unicode_len();
    let mut from: usize = 0;
    assert(s@.skip(0) =~= s@);
    while from < n && white(s.get_char(from))
        invariant
            from <= n,
            n == s@.len(),
            trim_front(s@) == trim_front(s@.skip(from as int)),
        decreases n - from,
    {
        assert(s@.skip(from as int).skip(1) =~= s@.skip(from + 1));
        from += 1;
    }
    let mut to: usize = n;
    assert(s@.subrange(from as int, n as int) =~= s@.skip(from as int));
    while to > from && white(s.get_char(to - 1))
        invariant
            from <= to <= n,
            n == s@.len(),
            trimmed(s@) == trim_back(s@.subrange(from as int, to as int)),
        decreases to,
    {
        assert(s@.subrange(from as int, to as int).drop_last() =~= s@.subrange(
            from as int,
            to - 1,
        ));
        to -= 1;
    }
    s.substring_char(from, to)
}

/// Whether two texts are the same.
pub fn same_text(a: &str, b: &str) -> (same: bool)
    ensures
        same == (a@ == b@),
{
    let n: usize = a.unicode_len();
    if n != b.unicode_len() {
        return false;
    }
    let mut i: usize = 0;
    while i < n
        invariant
            i <= n,
            n == a@.len(),
            n == b@.len(),
            forall|j: int| 0 <= j < i ==> a@[j] == b@[j],
        decreases n - i,
    {
        if a.get_char(i) != b.get_char(i) {
            return false;
        }
        i += 1;
    }
    assert(a@ =~= b@);
    true
}

/// `needle` stands in `hay` from place `at` on.
pub open spec fn stands_at(hay: Seq<u8>, needle: Seq<u8>, at: int) -> bool {
    0 <= at && at + needle.len() <= hay.len() && hay.subrange(at, at + needle.len()) == needle
}

/// `needle` stands somewhere in `hay`.
pub open spec fn holds(hay: Seq<u8>, needle: Seq<u8>) -> bool {
    exists|at: int| stands_at(hay, needle, at)
}

/// Whether `needle` stands somewhere in `hay`.
pub fn holds_text(hay: &str, needle: &str) -> (found: bool)
    ensures
        found == holds(encode_utf8(hay@), encode_utf8(needle@)),
{
    let h = hay.as_bytes();
    let n = needle.as_bytes();
    if n.len() == 0 {
        assert(h@.subrange(0, 0) =~= n@);
        assert(stands_at(h@, n@, 0));
        return true;
    }
    let mut at: usize = 0;
    while at < h.len() && h.len() - at >= n.len()
        invariant
            at <= h@.len(),
            h@ == encode_utf8(hay@),
            n@ == encode_utf8(needle@),
            n@.len() > 0,
            forall|k: int| 0 <= k < at ==> !stands_at(h@, n@, k),
        decreases h@.len() - at,
    {
        let mut i: usize = 0;
        while i < n.len() && h[at + i] == n[i]
            invariant
                i <= n@.len(),
                at + n@.len() <= h@.len(),
                h@.len() <= usize::MAX,
                forall|j: int| 0 <= j < i ==> h@[at + j] == n@[j],
            decreases n@.len() - i,
        {
            i += 1;
        }
        if i == n.len() {
            assert(h@.subrange(at as int, at + n@.len()) =~= n@);
            assert(stands_at(h@, n@, at as int));
            return true;
        }
        assert(h@.subrange(at as int, at + n@.len())[i as int] != n@[i as int]);
        at += 1;
    }
    assert forall|k: int| !stands_at(h@, n@, k) by {
        if k >= at {
            assert(k + n@.len() > h@.len());
        }
    }
    false
}

/// The characters that count as white space: those from tab to carriage return, the blank, and two
/// of the upper half.
pub proof fn white_space_is(c: char)
    ensures
        is_white(c) <==> 9 <= c as int <= 13 || c as int == 32 || c as int == 133 || c as int
            == 160,
{
}

/// Every character of `s` is white space.
pub open spec fn all_white(s: Seq<char>) -> bool {
    forall|i: int| 0 <= i < s.len() ==> is_white(#[trigger] s[i])
}

/// `s` starts and ends with something else than white space.
pub open spec fn is_tight(s: Seq<char>) -> bool {
    s.len() > 0 ==> !is_white(s[0]) && !is_white(s.last())
}

proof fn front_is_dropped(white: Seq<char>, s: Seq<char>)
    requires
        all_white(white),
        s.len() > 0 ==> !is_white(s[0]),
    ensures
        trim_front(white + s) == s,
    decreases white.len(),
{
    if white.len() == 0 {
        assert(white + s =~= s);
    } else {
        let rest = white.skip(1);
        assert forall|i: int| 0 <= i < rest.len() implies is_white(#[trigger] rest[i]) by {
            assert(rest[i] == white[i + 1]);
        }
        front_is_dropped(rest, s);
        assert((white + s).skip(1) =~= rest + s);
        assert(is_white(white[0]));
        assert((white + s)[0] == white[0]);
    }
}

proof fn back_is_dropped(s: Seq<char>, white: Seq<char>)
    requires
        all_white(white),
        s.len() > 0 ==> !is_white(s.last()),
    ensures
        trim_back(s + white) == s,
    decreases white.len(),
{
    if white.len() == 0 {
        assert(s + white =~= s);
    } else {
        let rest = white.drop_last();
        assert forall|i: int| 0 <= i < rest.len() implies is_white(#[trigger] rest[i]) by {
            assert(rest[i] == white[i]);
        }
        back_is_dropped(s, rest);
        assert((s + white).drop_last() =~= s + rest);
        assert(is_white(white[white.len() - 1]));
        assert((s + white).last() == white.last());
    }
}

/// White space around a text that has none at its ends is taken off, and nothing else.
pub proof fn white_space_is_trimmed(before: Seq<char>, s: Seq<char>, after: Seq<char>)
    requires
        all_white(before),
        all_white(after),
        is_tight(s),
        s.len() > 0,
    ensures
        trimmed(before + s + after) == s,
{
    assert(before + s + after =~= before + (s + after));
    assert((s + after)[0] == s[0]);
    front_is_dropped(before, s + after);
    back_is_dropped(s, after);
}

} // verus!
