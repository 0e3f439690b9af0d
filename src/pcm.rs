use vstd::prelude::*;

use crate::error::AudioError;

verus! {

/// The 32-bit word whose little-endian bytes are `b0, b1, b2, b3`.
pub open spec fn le_word(b0: u8, b1: u8, b2: u8, b3: u8) -> u32 {
    (b0 as int + 256 * b1 as int + 65536 * b2 as int + 16777216 * b3 as int) as u32
}

/// Byte `j` (0 = least significant) of the word `w`.
pub open spec fn word_byte(w: u32, j: int) -> u8 {
    if j == 0 {
        (w % 256) as u8
    } else if j == 1 {
        ((w / 256) % 256) as u8
    } else if j == 2 {
        ((w / 65536) % 256) as u8
    } else {
        ((w / 16777216) % 256) as u8
    }
}

/// Writing a word as four little-endian bytes and reading them back gives the word.
pub proof fn lemma_pcm_round_trip(w: u32)
    ensures
        le_word(word_byte(w, 0), word_byte(w, 1), word_byte(w, 2), word_byte(w, 3)) == w,
{
    assert(w == (w % 256) + 256 * ((w / 256) % 256) + 65536 * ((w / 65536) % 256) + 16777216 * (w
        / 16777216)) by (bit_vector);
    assert(w / 16777216 < 256) by (bit_vector);
}

/// Reads a raw stream of little-endian 32-bit samples, `channels` to a frame.
///
/// The stream must hold whole samples (four bytes each) and whole frames;
/// otherwise it is rejected with `Decode`.
pub fn decode_words(bytes: &Vec<u8>, channels: usize) -> (r: Result<Vec<u32>, AudioError>)
    ensures
        channels == 0 || bytes.len() % 4 != 0 || (bytes.len() / 4) % channels != 0 <==> r
            == Err::<Vec<u32>, AudioError>(AudioError::Decode),
        r is Ok <==> channels > 0 && bytes.len() % 4 == 0 && (bytes.len() / 4) % channels == 0,
        r is Ok ==> r->Ok_0.len() == bytes.len() / 4,
        r is Ok ==> forall|k: int|
            0 <= k < r->Ok_0.len() ==> #[trigger] r->Ok_0@[k] == le_word(
                bytes@[4 * k],
                bytes@[4 * k + 1],
                bytes@[4 * k + 2],
                bytes@[4 * k + 3],
            ),
{
    if channels == 0 || bytes.len() % 4 != 0 || (bytes.len() / 4) % channels != 0 {
        return Err(AudioError::Decode);
    }
    let n = bytes.len() / 4;
    let mut out: Vec<u32> = Vec::new();
    let mut k: usize = 0;
    while k < n
        invariant
            n == bytes.len() / 4,
            bytes.len() % 4 == 0,
            k <= n,
            out.len() == k,
            forall|j: int|
                0 <= j < k ==> #[trigger] out@[j] == le_word(
                    bytes@[4 * j],
                    bytes@[4 * j + 1],
                    bytes@[4 * j + 2],
                    bytes@[4 * j + 3],
                ),
        decreases n - k,
    {
        let b0 = bytes[4 * k] as u32;
        let b1 = bytes[4 * k + 1] as u32;
        let b2 = bytes[4 * k + 2] as u32;
        let b3 = bytes[4 * k + 3] as u32;
        out.push(b0 + 256 * b1 + 65536 * b2 + 16777216 * b3);
        k += 1;
    }
    Ok(out)
}

/// Writes 32-bit samples as a raw little-endian byte stream.
pub fn encode_words(words: &Vec<u32>) -> (r: Vec<u8>)
    requires
        4 * words.len() <= usize::MAX,
    ensures
        r.len() == 4 * words.len(),
        forall|k: int, j: int|
            0 <= k < words.len() && 0 <= j < 4 ==> #[trigger] r@[4 * k + j] == word_byte(
                words@[k],
                j,
            ),
{
    let mut out: Vec<u8> = Vec::new();
    let mut k: usize = 0;
    while k < words.len()
        invariant
            4 * words.len() <= usize::MAX,
            k <= words.len(),
            out.len() == 4 * k,
            forall|i: int, j: int|
                0 <= i < k && 0 <= j < 4 ==> #[trigger] out@[4 * i + j] == word_byte(words@[i], j),
        decreases words.len() - k,
    {
        let w = words[k];
        out.push((w % 256) as u8);
        out.push(((w / 256) % 256) as u8);
        out.push(((w / 65536) % 256) as u8);
        out.push(((w / 16777216) % 256) as u8);
        k += 1;
    }
    out
}

} // verus!
