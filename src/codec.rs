//! Program images: a big-endian stream of 32-bit words.
use vstd::prelude::*;

verus! {

/// The word that four bytes form, most significant byte first.
pub open spec fn word_of(b0: u8, b1: u8, b2: u8, b3: u8) -> u32 {
    ((b0 as u32) << 24u32) | ((b1 as u32) << 16u32) | ((b2 as u32) << 8u32) | (b3 as u32)
}

/// Byte `k` (0 to 3, most significant first) of a word.
pub open spec fn byte_of(w: u32, k: int) -> u8 {
    if k == 0 {
        (w >> 24u32) as u8
    } else if k == 1 {
        (w >> 16u32) as u8
    } else if k == 2 {
        (w >> 8u32) as u8
    } else {
        w as u8
    }
}

/// The words of an image: one for each whole group of four bytes; a short tail is dropped.
pub open spec fn words_of(b: Seq<u8>) -> Seq<u32> {
    Seq::new(b.len() / 4, |i: int| word_of(b[4 * i], b[4 * i + 1], b[4 * i + 2], b[4 * i + 3]))
}

/// The image of a sequence of words: four bytes each, in order.
pub open spec fn bytes_of(w: Seq<u32>) -> Seq<u8> {
    Seq::new(w.len() * 4, |j: int| byte_of(w[j / 4], j % 4))
}

proof fn lemma_word_bytes(b0: u8, b1: u8, b2: u8, b3: u8)
    ensures
        byte_of(word_of(b0, b1, b2, b3), 0) == b0,
        byte_of(word_of(b0, b1, b2, b3), 1) == b1,
        byte_of(word_of(b0, b1, b2, b3), 2) == b2,
        byte_of(word_of(b0, b1, b2, b3), 3) == b3,
{
    let w = word_of(b0, b1, b2, b3);
    assert(w == ((b0 as u32) << 24u32) | ((b1 as u32) << 16u32) | ((b2 as u32) << 8u32) | (b3 as u32));
    assert((((((b0 as u32) << 24u32) | ((b1 as u32) << 16u32) | ((b2 as u32) << 8u32) | (b3 as u32)) >> 24u32) as u8) == b0) by (bit_vector);
    assert((((((b0 as u32) << 24u32) | ((b1 as u32) << 16u32) | ((b2 as u32) << 8u32) | (b3 as u32)) >> 16u32) as u8) == b1) by (bit_vector);
    assert((((((b0 as u32) << 24u32) | ((b1 as u32) << 16u32) | ((b2 as u32) << 8u32) | (b3 as u32)) >> 8u32) as u8) == b2) by (bit_vector);
    assert(((((b0 as u32) << 24u32) | ((b1 as u32) << 16u32) | ((b2 as u32) << 8u32) | (b3 as u32)) as u8) == b3) by (bit_vector);
}

proof fn lemma_bytes_word(w: u32)
    ensures
        word_of(byte_of(w, 0), byte_of(w, 1), byte_of(w, 2), byte_of(w, 3)) == w,
{
    assert((((((w >> 24u32) as u8) as u32) << 24u32) | ((((w >> 16u32) as u8) as u32) << 16u32)
        | ((((w >> 8u32) as u8) as u32) << 8u32) | ((w as u8) as u32)) == w) by (bit_vector);
}

/// Reading an image and writing its words back gives the image again, whenever its
/// length is a whole number of words.
pub proof fn lemma_image_round_trip(b: Seq<u8>)
    requires
        b.len() % 4 == 0,
    ensures
        bytes_of(words_of(b)) == b,
{
    let r = bytes_of(words_of(b));
    assert forall|j: int| 0 <= j < b.len() implies r[j] == b[j] by {
        let i = j / 4;
        lemma_word_bytes(b[4 * i], b[4 * i + 1], b[4 * i + 2], b[4 * i + 3]);
    }
    assert(r =~= b);
}

/// Writing words out and reading the image back gives the same words.
pub proof fn lemma_words_round_trip(w: Seq<u32>)
    ensures
        words_of(bytes_of(w)) == w,
{
    let r = words_of(bytes_of(w));
    assert forall|i: int| 0 <= i < w.len() implies r[i] == w[i] by {
        lemma_bytes_word(w[i]);
    }
    assert(r =~= w);
}

/// Combines four bytes, most significant first, into one word.
pub fn as_u32(word: [u8; 4]) -> (r: u32)
    ensures
        r == word_of(word@[0], word@[1], word@[2], word@[3]),
{
    ((word[0] as u32) << 24u32) | ((word[1] as u32) << 16u32) | ((word[2] as u32) << 8u32) | (
    word[3] as u32)
}

/// Decodes an image into the program's words; a tail of fewer than four bytes is dropped.
pub fn read_scroll(bytes: &[u8]) -> (scroll: Vec<u32>)
    ensures
        scroll@ == words_of(bytes@),
{
    let n = bytes.len() / 4;
    let mut scroll: Vec<u32> = Vec::with_capacity(n);
    let mut i: usize = 0;
    let mut k: usize = 0;
    while i < n
        invariant
            n == bytes@.len() / 4,
            i <= n,
            k == 4 * i,
            scroll@ == words_of(bytes@).take(i as int),
        decreases n - i,
    {
        let word: [u8; 4] = [bytes[k], bytes[k + 1], bytes[k + 2], bytes[k + 3]];
        scroll.push(as_u32(word));
        assert(scroll@ =~= words_of(bytes@).take(i + 1));
        i = i + 1;
        k = k + 4;
    }
    assert(scroll@ =~= words_of(bytes@));
    scroll
}

/// Encodes words as an image, four bytes each, most significant first.
pub fn write_scroll(words: &[u32]) -> (bytes: Vec<u8>)
    requires
        words@.len() * 4 <= usize::MAX,
    ensures
        bytes@ == bytes_of(words@),
{
    let mut bytes: Vec<u8> = Vec::new();
    let mut i: usize = 0;
    while i < words.len()
        invariant
            i <= words@.len(),
            bytes@ == bytes_of(words@).take(4 * i),
        decreases words@.len() - i,
    {
        let w = words[i];
        bytes.push((w >> 24u32) as u8);
        bytes.push((w >> 16u32) as u8);
        bytes.push((w >> 8u32) as u8);
        bytes.push(w as u8);
        assert(bytes@ =~= bytes_of(words@).take(4 * (i + 1)));
        i = i + 1;
    }
    assert(bytes@ =~= bytes_of(words@));
    bytes
}

} // verus!
