//! Big-endian 32-bit words on a byte buffer.

use vstd::prelude::*;

verus! {

/// The four bytes of a word, the most significant first.
#[verifier::opaque]
pub open spec fn be_bytes(word: u32) -> Seq<u8> {
    seq![
        (word / 0x100_0000) as u8,
        ((word / 0x1_0000) % 0x100) as u8,
        ((word / 0x100) % 0x100) as u8,
        (word % 0x100) as u8,
    ]
}

/// The word whose big-endian bytes stand at `pos` in `bytes`.
#[verifier::opaque]
pub open spec fn be_word(bytes: Seq<u8>, pos: int) -> u32
    recommends
        0 <= pos,
        pos + 4 <= bytes.len(),
{
    (bytes[pos] * 0x100_0000 + bytes[pos + 1] * 0x1_0000 + bytes[pos + 2] * 0x100 + bytes[pos
        + 3]) as u32
}

/// A word is read back from its own bytes.
pub proof fn lemma_be_word_of_bytes(word: u32)
    ensures
        be_bytes(word).len() == 4,
        be_word(be_bytes(word), 0) == word,
{
    reveal(be_bytes);
    reveal(be_word);
}

/// A word is read from wherever its four bytes stand.
pub proof fn lemma_word_at(bytes: Seq<u8>, pos: int, word: u32)
    requires
        0 <= pos,
        pos + 4 <= bytes.len(),
        bytes.subrange(pos, pos + 4) == be_bytes(word),
    ensures
        be_word(bytes, pos) == word,
{
    reveal(be_bytes);
    reveal(be_word);
    let part = bytes.subrange(pos, pos + 4);
    assert(part[0] == bytes[pos] && part[1] == bytes[pos + 1] && part[2] == bytes[pos + 2]
        && part[3] == bytes[pos + 3]);
}

/// A word that stands whole in the first `m` bytes is read from them as from
/// the buffer.
pub proof fn lemma_word_in_prefix(bytes: Seq<u8>, m: int, pos: int)
    requires
        0 <= pos,
        pos + 4 <= m <= bytes.len(),
    ensures
        be_word(bytes.take(m), pos) == be_word(bytes, pos),
{
    reveal(be_word);
}

/// Appends the four big-endian bytes of `word` to `out`.
pub fn push_word(out: &mut Vec<u8>, word: u32)
    ensures
        final(out)@ == old(out)@ + be_bytes(word),
{
    out.push((word / 0x100_0000) as u8);
    out.push(((word / 0x1_0000) % 0x100) as u8);
    out.push(((word / 0x100) % 0x100) as u8);
    out.push((word % 0x100) as u8);
    proof {
        reveal(be_bytes);
        assert(out@ =~= old(out)@ + be_bytes(word));
    }
}

/// Reads the big-endian word at `pos`.
pub fn read_word(bytes: &[u8], pos: usize) -> (word: u32)
    requires
        pos + 4 <= bytes@.len(),
    ensures
        word == be_word(bytes@, pos as int),
{
    proof {
        reveal(be_word);
    }
    let b0: u32 = bytes[pos] as u32;
    let b1: u32 = bytes[pos + 1] as u32;
    let b2: u32 = bytes[pos + 2] as u32;
    let b3: u32 = bytes[pos + 3] as u32;
    b0 * 0x100_0000 + b1 * 0x1_0000 + b2 * 0x100 + b3
}

} // verus!
