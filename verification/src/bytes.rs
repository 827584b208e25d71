//! 32-bit words as bytes, least significant first.

use vstd::prelude::*;

verus! {

/// The four bytes of `x`.
pub open spec fn le32_bytes(x: u32) -> Seq<u8> {
    seq![
        (x % 0x100) as u8,
        (x / 0x100 % 0x100) as u8,
        (x / 0x1_0000 % 0x100) as u8,
        (x / 0x100_0000) as u8,
    ]
}

/// The word whose bytes stand in `b` from `at` on.
pub open spec fn le32(b: Seq<u8>, at: int) -> u32 {
    (b[at] + 0x100 * b[at + 1] + 0x1_0000 * b[at + 2] + 0x100_0000 * b[at + 3]) as u32
}

/// The bytes of all of `words`, one word after the other.
pub open spec fn words_bytes(words: Seq<u32>) -> Seq<u8> {
    Seq::new(4 * words.len(), |i: int| le32_bytes(words[i / 4])[i % 4])
}

/// Reading the bytes of a word gives the word back.
pub proof fn word_of_its_bytes(x: u32)
    ensures
        le32(le32_bytes(x), 0) == x,
{
}

/// Four bytes are the bytes of the word that they make up.
pub proof fn bytes_of_their_word(b: Seq<u8>, at: int)
    requires
        0 <= at,
        at + 4 <= b.len(),
    ensures
        le32_bytes(le32(b, at)) == b.subrange(at, at + 4),
{
    assert(le32_bytes(le32(b, at)) =~= b.subrange(at, at + 4));
}

/// Different sequences of words have different bytes.
pub proof fn words_bytes_injective(a: Seq<u32>, b: Seq<u32>)
    requires
        words_bytes(a) == words_bytes(b),
    ensures
        a == b,
{
    assert(words_bytes(a).len() == 4 * a.len());
    assert(words_bytes(b).len() == 4 * b.len());
    assert forall|i: int| 0 <= i < a.len() implies a[i] == b[i] by {
        assert forall|k: int| 0 <= k < 4 implies le32_bytes(a[i])[k] == le32_bytes(b[i])[k] by {
            let at = 4 * i + k;
            assert(at / 4 == i && at % 4 == k);
            assert(0 <= at < 4 * a.len());
            assert(words_bytes(a)[at] == le32_bytes(a[i])[k]);
            assert(words_bytes(b)[at] == le32_bytes(b[i])[k]);
        }
        assert(le32_bytes(a[i]) =~= le32_bytes(b[i]));
        word_of_its_bytes(a[i]);
        word_of_its_bytes(b[i]);
    }
    assert(a =~= b);
}

/// The word whose bytes stand in `b` from `at` on.
pub fn read_le32(b: &[u8], at: usize) -> (x: u32)
    requires
        at + 4 <= b@.len(),
    ensures
        x == le32(b@, at as int),
{
    b[at] as u32 + 0x100 * (b[at + 1] as u32) + 0x1_0000 * (b[at + 2] as u32) + 0x100_0000 * (b[at
        + 3] as u32)
}

/// Appends the four bytes of `x`.
pub fn push_le32(out: &mut Vec<u8>, x: u32)
    ensures
        final(out)@ == old(out)@ + le32_bytes(x),
{
    out.push((x % 0x100) as u8);
    out.push((x / 0x100 % 0x100) as u8);
    out.push((x / 0x1_0000 % 0x100) as u8);
    out.push((x / 0x100_0000) as u8);
    assert(out@ =~= old(out)@ + le32_bytes(x));
}

/// The first of a word's bytes is its lowest eight bits, and the others go up from there.
pub proof fn bytes_go_up(x: u32)
    ensures
        le32_bytes(x).len() == 4,
        le32_bytes(x)[0] + 0x100 * le32_bytes(x)[1] + 0x1_0000 * le32_bytes(x)[2] + 0x100_0000
            * le32_bytes(x)[3] == x,
{
}

} // verus!
