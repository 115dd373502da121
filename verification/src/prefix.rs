//! Query prefixes: the prefixes of a word, and the identity under which the
//! vector of a prefix is stored.

use crate::point::PointId;
use vstd::prelude::*;
use vstd::utf8::encode_utf8;

verus! {

/// What `n_chars` returns for `word` and `n`.
///
/// A word of at most `n` bytes is returned whole. A longer word is cut after
/// its first `n` characters. A word of more than `n` bytes but at most `n`
/// characters has no character at position `n` to cut before, and gives the
/// empty string.
pub open spec fn char_prefix(word: Seq<char>, n: nat) -> Seq<char> {
    if encode_utf8(word).len() <= n {
        word
    } else if word.len() > n {
        word.subrange(0, n as int)
    } else {
        Seq::empty()
    }
}

/// The prefix of `word` that holds its first `n` characters.
pub fn n_chars(word: &str, n: usize) -> (prefix: &str)
    ensures
        prefix@ == char_prefix(word@, n as nat),
{
    if word.as_bytes().len() <= n {
        word
    } else if word.unicode_len() > n {
        word.substring_char(0, n)
    } else {
        let empty = word.substring_char(0, 0);
        assert(empty@ =~= Seq::<char>::empty());
        empty
    }
}

/// The number that the bytes write in base 256, the first byte being the
/// lowest digit.
pub open spec fn little_endian(bytes: Seq<u8>) -> nat
    decreases bytes.len(),
{
    if bytes.len() == 0 {
        0
    } else {
        bytes[0] as nat + 256 * little_endian(bytes.drop_first())
    }
}

/// The first eight bytes of a text, or all of them if it has fewer.
pub open spec fn leading_bytes(text: Seq<char>) -> Seq<u8> {
    let bytes = encode_utf8(text);
    if bytes.len() < 8 {
        bytes
    } else {
        bytes.subrange(0, 8)
    }
}

/// The number under which the vector of a prefix is stored: its first eight
/// bytes read as a little-endian integer. A shorter prefix counts as filled
/// up with zero bytes, which leaves the number as it is.
pub open spec fn anchor_id(prefix: Seq<char>) -> nat {
    little_endian(leading_bytes(prefix))
}

/// 256 to the power of `k`.
pub open spec fn pow256(k: nat) -> nat
    decreases k,
{
    if k == 0 {
        1
    } else {
        256 * pow256((k - 1) as nat)
    }
}

/// A number of `k` bytes is below 256 to the power of `k`.
pub proof fn lemma_little_endian_bound(bytes: Seq<u8>)
    ensures
        little_endian(bytes) < pow256(bytes.len()),
    decreases bytes.len(),
{
    if bytes.len() > 0 {
        lemma_little_endian_bound(bytes.drop_first());
    }
}

/// Zero bytes after the last byte do not change the number.
pub proof fn lemma_zero_padding(bytes: Seq<u8>, zeros: nat)
    ensures
        little_endian(bytes + Seq::new(zeros, |i: int| 0u8)) == little_endian(bytes),
    decreases bytes.len() + zeros,
{
    let padded = bytes + Seq::new(zeros, |i: int| 0u8);
    if bytes.len() > 0 {
        lemma_zero_padding(bytes.drop_first(), zeros);
        assert(padded.drop_first() =~= bytes.drop_first() + Seq::new(zeros, |i: int| 0u8));
    } else if zeros > 0 {
        lemma_zero_padding(bytes, (zeros - 1) as nat);
        assert(padded.drop_first() =~= bytes + Seq::new((zeros - 1) as nat, |i: int| 0u8));
    }
}

/// Reduces a prefix to the identity of its stored vector.
///
/// Prefixes that agree in their first eight bytes get the same identity.
pub fn prefix_to_id(prefix: &str) -> (id: PointId)
    ensures
        id matches PointId::Num(n) && n as nat == anchor_id(prefix@),
{
    let bytes = prefix.as_bytes();
    let len: usize = if bytes.len() < 8 {
        bytes.len()
    } else {
        8
    };
    let ghost lead = leading_bytes(prefix@);
    assert(lead =~= bytes@.subrange(0, len as int));
    let mut value: u64 = 0;
    let mut i: usize = len;
    assert(lead.subrange(len as int, len as int) =~= Seq::<u8>::empty());
    while i > 0
        invariant
            i <= len <= 8,
            len <= bytes@.len(),
            lead == bytes@.subrange(0, len as int),
            value as nat == little_endian(lead.subrange(i as int, len as int)),
        decreases i,
    {
        i -= 1;
        proof {
            let low = lead.subrange(i as int, len as int);
            let high = lead.subrange(i + 1, len as int);
            assert(low.drop_first() =~= high);
            assert(low[0] == bytes@[i as int]);
            lemma_little_endian_bound(high);
            reveal_with_fuel(pow256, 9);
            assert(pow256(high.len()) <= pow256(7)) by {
                lemma_pow256_monotonic(high.len(), 7);
            }
        }
        value = value * 256 + bytes[i] as u64;
    }
    assert(lead.subrange(0, len as int) =~= lead);
    PointId::Num(value)
}

/// A higher power of 256 is no smaller.
pub proof fn lemma_pow256_monotonic(low: nat, high: nat)
    requires
        low <= high,
    ensures
        pow256(low) <= pow256(high),
    decreases high,
{
    if low < high {
        lemma_pow256_monotonic(low, (high - 1) as nat);
    }
}

} // verus!
