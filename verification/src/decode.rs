//! Framing of on-chain exchange accounts: a fixed head padding, an inner
//! payload of little-endian 64-bit words, and a fixed tail padding.

use vstd::prelude::*;

verus! {

/// Why raw account bytes were rejected while stripping the framing.
#[derive(Clone, Copy, Debug, PartialEq, Eq, Structural)]
pub enum MalformedAccount {
    /// Shorter than the two fixed paddings together.
    TooShort,
    /// The leading bytes differ from the fixed head padding.
    HeadMismatch,
    /// The trailing bytes differ from the fixed tail padding.
    TailMismatch,
    /// The inner payload is not a whole number of 64-bit words.
    WordMisaligned,
}

/// The fixed head padding every exchange account starts with: the bytes of
/// "serum".
pub open spec fn head_padding() -> Seq<u8> {
    seq![0x73u8, 0x65u8, 0x72u8, 0x75u8, 0x6du8]
}

/// The fixed tail padding every exchange account ends with: the bytes of
/// "padding".
pub open spec fn tail_padding() -> Seq<u8> {
    seq![0x70u8, 0x61u8, 0x64u8, 0x64u8, 0x69u8, 0x6eu8, 0x67u8]
}

/// The 64-bit word encoded little-endian by eight bytes.
pub open spec fn word_of_le_bytes(b: Seq<u8>) -> u64
    recommends
        b.len() == 8,
{
    (b[0] + b[1] * 0x100 + b[2] * 0x1_0000 + b[3] * 0x100_0000 + b[4] * 0x1_0000_0000
        + b[5] * 0x100_0000_0000 + b[6] * 0x1_0000_0000_0000 + b[7] * 0x100_0000_0000_0000) as u64
}

/// The little-endian 64-bit words encoded by a byte sequence, eight bytes a
/// word.
pub open spec fn words_of_bytes(inner: Seq<u8>) -> Seq<u64> {
    Seq::new((inner.len() / 8) as nat, |i: int| word_of_le_bytes(inner.subrange(8 * i, 8 * i + 8)))
}

/// What stripping the account framing yields for given raw bytes: the inner
/// words, or the first reason for rejection in checking order.
pub open spec fn spec_strip_padding(data: Seq<u8>) -> Result<Seq<u64>, MalformedAccount> {
    if data.len() < head_padding().len() + tail_padding().len() {
        Err(MalformedAccount::TooShort)
    } else if data.subrange(0, 5) != head_padding() {
        Err(MalformedAccount::HeadMismatch)
    } else if data.subrange(data.len() - 7, data.len() as int) != tail_padding() {
        Err(MalformedAccount::TailMismatch)
    } else if (data.len() - 12) % 8 != 0 {
        Err(MalformedAccount::WordMisaligned)
    } else {
        Ok(words_of_bytes(data.subrange(5, data.len() - 7)))
    }
}

/// Checks the fixed head and tail paddings of a raw exchange account and
/// returns its inner payload as little-endian 64-bit words.
#[verifier::loop_isolation(false)]
pub fn strip_padding(data: &[u8]) -> (r: Result<Vec<u64>, MalformedAccount>)
    ensures
        match r {
            Ok(words) => spec_strip_padding(data@) == Ok::<Seq<u64>, MalformedAccount>(words@),
            Err(e) => spec_strip_padding(data@) == Err::<Seq<u64>, MalformedAccount>(e),
        },
{
    let n = data.len();
    if n < 12 {
        return Err(MalformedAccount::TooShort);
    }
    let head_ok = data[0] == 0x73 && data[1] == 0x65 && data[2] == 0x72 && data[3] == 0x75
        && data[4] == 0x6d;
    if !head_ok {
        assert(data@.subrange(0, 5) != head_padding()) by {
            assert(data@.subrange(0, 5)[0] == data@[0]);
            assert(data@.subrange(0, 5)[1] == data@[1]);
            assert(data@.subrange(0, 5)[2] == data@[2]);
            assert(data@.subrange(0, 5)[3] == data@[3]);
            assert(data@.subrange(0, 5)[4] == data@[4]);
        }
        return Err(MalformedAccount::HeadMismatch);
    }
    assert(data@.subrange(0, 5) =~= head_padding());
    let tail_ok = data[n - 7] == 0x70 && data[n - 6] == 0x61 && data[n - 5] == 0x64 && data[n - 4]
        == 0x64 && data[n - 3] == 0x69 && data[n - 2] == 0x6e && data[n - 1] == 0x67;
    if !tail_ok {
        assert(data@.subrange(n - 7, n as int) != tail_padding()) by {
            assert(forall|i: int|
                0 <= i < 7 ==> #[trigger] data@.subrange(n - 7, n as int)[i] == data@[n - 7 + i]);
        }
        return Err(MalformedAccount::TailMismatch);
    }
    assert(data@.subrange(n - 7, n as int) =~= tail_padding());
    let inner_len = n - 12;
    if inner_len % 8 != 0 {
        return Err(MalformedAccount::WordMisaligned);
    }
    let ghost inner = data@.subrange(5, n - 7);
    assert(inner.len() == inner_len);
    let word_count = inner_len / 8;
    let mut words: Vec<u64> = Vec::new();
    let mut i: usize = 0;
    while i < word_count
        invariant
            0 <= i <= word_count,
            words@.len() == i,
            forall|k: int| 0 <= k < i ==> words@[k] == words_of_bytes(inner)[k],
        decreases word_count - i,
    {
        let base = 5 + 8 * i;
        let w: u64 = (data[base] as u64) + (data[base + 1] as u64) * 0x100 + (data[base + 2]
            as u64) * 0x1_0000 + (data[base + 3] as u64) * 0x100_0000 + (data[base + 4] as u64)
            * 0x1_0000_0000 + (data[base + 5] as u64) * 0x100_0000_0000 + (data[base + 6] as u64)
            * 0x1_0000_0000_0000 + (data[base + 7] as u64) * 0x100_0000_0000_0000;
        assert(w == word_of_le_bytes(inner.subrange(8 * i, 8 * i + 8))) by {
            assert(forall|j: int|
                0 <= j < 8 ==> #[trigger] inner.subrange(8 * i, 8 * i + 8)[j] == data@[5 + 8 * i
                    + j]);
        }
        words.push(w);
        i = i + 1;
    }
    assert(words@ =~= words_of_bytes(inner));
    Ok(words)
}

/// Stripping is exact on well-framed input: wrapping any word-aligned payload
/// in the two fixed paddings and stripping gives back precisely its words.
pub proof fn lemma_strip_padding_round_trip(inner: Seq<u8>)
    requires
        inner.len() % 8 == 0,
    ensures
        spec_strip_padding(head_padding() + inner + tail_padding()) == Ok::<
            Seq<u64>,
            MalformedAccount,
        >(words_of_bytes(inner)),
{
    let data = head_padding() + inner + tail_padding();
    assert(data.len() == inner.len() + 12);
    assert(data.subrange(0, 5) =~= head_padding());
    assert(data.subrange(data.len() - 7, data.len() as int) =~= tail_padding());
    assert(data.subrange(5, data.len() - 7) =~= inner);
}

} // verus!
