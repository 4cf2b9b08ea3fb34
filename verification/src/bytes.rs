//! Words as bytes: every word of a module is written with its least
//! significant byte first, whatever the machine.

use vstd::prelude::*;

verus! {

/// The four bytes of a word, least significant first.
pub open spec fn word_bytes(w: u32) -> Seq<u8> {
    seq![
        (w % 256) as u8,
        ((w / 256) % 256) as u8,
        ((w / 65536) % 256) as u8,
        (w / 16777216) as u8,
    ]
}

/// The bytes of a sequence of words: those of each word, in the order of the
/// words.
pub open spec fn le_bytes(words: Seq<u32>) -> Seq<u8>
    decreases words.len(),
{
    if words.len() == 0 {
        Seq::empty()
    } else {
        le_bytes(words.drop_last()) + word_bytes(words.last())
    }
}

/// Each word takes four bytes, and the `i`-th word is found in the four
/// bytes from `4 * i` on.
pub proof fn lemma_le_bytes(words: Seq<u32>, i: int)
    requires
        0 <= i < words.len(),
    ensures
        le_bytes(words).len() == 4 * words.len(),
        le_bytes(words).subrange(4 * i, 4 * i + 4) == word_bytes(words[i]),
    decreases words.len(),
{
    lemma_le_bytes_len(words);
    lemma_le_bytes_len(words.drop_last());
    let front = le_bytes(words.drop_last());
    let back = word_bytes(words.last());
    if i == words.len() - 1 {
        assert((front + back).subrange(4 * i, 4 * i + 4) =~= back);
    } else {
        lemma_le_bytes(words.drop_last(), i);
        assert((front + back).subrange(4 * i, 4 * i + 4) =~= front.subrange(4 * i, 4 * i + 4));
    }
}

/// Each word takes four bytes.
pub proof fn lemma_le_bytes_len(words: Seq<u32>)
    ensures
        le_bytes(words).len() == 4 * words.len(),
    decreases words.len(),
{
    if words.len() > 0 {
        lemma_le_bytes_len(words.drop_last());
    }
}

/// Writes each word with its least significant byte first.
pub fn words_to_bytes(words: &Vec<u32>) -> (bytes: Vec<u8>)
    ensures
        bytes@ == le_bytes(words@),
{
    let mut bytes: Vec<u8> = Vec::new();
    let mut i: usize = 0;
    while i < words.len()
        invariant
            i <= words.len(),
            bytes@ == le_bytes(words@.take(i as int)),
        decreases words.len() - i,
    {
        let w = words[i];
        bytes.push((w % 256) as u8);
        bytes.push(((w / 256) % 256) as u8);
        bytes.push(((w / 65536) % 256) as u8);
        bytes.push((w / 16777216) as u8);
        proof {
            let next = words@.take(i + 1);
            assert(next.drop_last() =~= words@.take(i as int));
            assert(next.last() == w);
            assert(bytes@ =~= le_bytes(words@.take(i as int)) + word_bytes(w));
        }
        i += 1;
    }
    assert(words@.take(i as int) =~= words@);
    bytes
}

} // verus!
