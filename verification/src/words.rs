//! The binary encoding of SPIR-V: instructions as words, words as bytes.

use vstd::prelude::*;

use crate::binary::lemma_bytes_hold_words;

verus! {

/// Opcodes of the instructions that the library emits.
pub const OP_NAME: u32 = 5;

pub const OP_MEMBER_NAME: u32 = 6;

pub const OP_EXT_INST_IMPORT: u32 = 11;

pub const OP_MEMORY_MODEL: u32 = 14;

pub const OP_CAPABILITY: u32 = 17;

pub const OP_TYPE_VOID: u32 = 19;

pub const OP_TYPE_BOOL: u32 = 20;

pub const OP_TYPE_INT: u32 = 21;

pub const OP_TYPE_FLOAT: u32 = 22;

pub const OP_TYPE_VECTOR: u32 = 23;

pub const OP_TYPE_STRUCT: u32 = 30;

pub const OP_TYPE_POINTER: u32 = 32;

pub const OP_TYPE_FUNCTION: u32 = 33;

pub const OP_CONSTANT: u32 = 43;

/// The low 32 bits of `n` in two's complement.
pub open spec fn low32(n: int) -> u32 {
    (n % 0x1_0000_0000) as u32
}

/// An instruction as it stands in the binary: the first word holds the opcode
/// in its lower half and the word count, modulo 2^16, in its upper half.
pub open spec fn instruction(opcode: u32, rest: Seq<u32>) -> Seq<u32> {
    seq![(opcode + ((rest.len() + 1) % 0x1_0000) * 0x1_0000) as u32] + rest
}

/// Four bytes, the lowest first, as one word.
pub open spec fn le_word(b0: u8, b1: u8, b2: u8, b3: u8) -> u32 {
    (b0 + 0x100 * b1 + 0x1_0000 * b2 + 0x100_0000 * b3) as u32
}

/// A literal string as operand words: its UTF-8 bytes, a terminating zero byte
/// and zero bytes up to the next word, the lowest byte of each word first.
pub open spec fn string_words(text: Seq<char>) -> Seq<u32> {
    let bytes = vstd::utf8::encode_utf8(text);
    Seq::new(
        (bytes.len() / 4 + 1) as nat,
        |i: int|
            le_word(
                byte_or_zero(bytes, 4 * i),
                byte_or_zero(bytes, 4 * i + 1),
                byte_or_zero(bytes, 4 * i + 2),
                byte_or_zero(bytes, 4 * i + 3),
            ),
    )
}

/// The byte at position `k`, zero beyond the end.
pub open spec fn byte_or_zero(bytes: Seq<u8>, k: int) -> u8 {
    if 0 <= k < bytes.len() {
        bytes[k]
    } else {
        0
    }
}

/// Byte `k` of `word`, counted from the lowest.
pub open spec fn word_byte(word: u32, k: int) -> u8 {
    if k == 0 {
        (word % 0x100) as u8
    } else if k == 1 {
        ((word / 0x100) % 0x100) as u8
    } else if k == 2 {
        ((word / 0x1_0000) % 0x100) as u8
    } else {
        (word / 0x100_0000) as u8
    }
}

/// Words as a byte stream, the lowest byte of each word first.
pub open spec fn le_bytes(words: Seq<u32>) -> Seq<u8> {
    Seq::new(4 * words.len(), |k: int| word_byte(words[k / 4], k % 4))
}

/// Writes `words` out as bytes, the lowest byte of each word first.
pub fn words_to_bytes(words: &Vec<u32>) -> (bytes: Vec<u8>)
    ensures
        bytes@ == le_bytes(words@),
        bytes@.len() == 4 * words@.len(),
        forall|i: int|
            0 <= i < words@.len() ==> #[trigger] words@[i] == bytes@[4 * i] + 0x100 * bytes@[4 * i
                + 1] + 0x1_0000 * bytes@[4 * i + 2] + 0x100_0000 * bytes@[4 * i + 3],
{
    let mut bytes: Vec<u8> = Vec::new();
    let mut i: usize = 0;
    while i < words.len()
        invariant
            i <= words.len(),
            bytes@.len() == 4 * i,
            forall|k: int| 0 <= k < 4 * i ==> bytes@[k] == #[trigger] le_bytes(words@)[k],
        decreases words.len() - i,
    {
        let word: u32 = words[i];
        let ghost before = bytes@;
        bytes.push((word % 0x100) as u8);
        bytes.push(((word / 0x100) % 0x100) as u8);
        bytes.push(((word / 0x1_0000) % 0x100) as u8);
        bytes.push((word / 0x100_0000) as u8);
        assert forall|k: int| 0 <= k < 4 * (i + 1) implies bytes@[k] == #[trigger] le_bytes(
            words@,
        )[k] by {
            if k < 4 * i {
                assert(bytes@[k] == before[k]);
            } else {
                assert(k / 4 == i);
            }
        }
        i = i + 1;
    }
    assert(bytes@ =~= le_bytes(words@));
    proof {
        lemma_bytes_hold_words(words@);
    }
    bytes
}

/// The four bytes of a word, each in its place, make up the word.
pub proof fn lemma_bytes_of_word(w: u32)
    ensures
        w == word_byte(w, 0) + 0x100 * word_byte(w, 1) + 0x1_0000 * word_byte(w, 2) + 0x100_0000
            * word_byte(w, 3),
{
    assert(w % 0x100 + 0x100 * ((w / 0x100) % 0x100) + 0x1_0000 * ((w / 0x1_0000) % 0x100)
        + 0x100_0000 * (w / 0x100_0000) == w) by (bit_vector);
}

/// Where the bytes of a word stand in the byte stream.
pub proof fn lemma_byte_places(words: Seq<u32>, i: int)
    requires
        0 <= i < words.len(),
    ensures
        le_bytes(words)[4 * i] == word_byte(words[i], 0),
        le_bytes(words)[4 * i + 1] == word_byte(words[i], 1),
        le_bytes(words)[4 * i + 2] == word_byte(words[i], 2),
        le_bytes(words)[4 * i + 3] == word_byte(words[i], 3),
{
    assert((4 * i) / 4 == i && (4 * i) % 4 == 0);
    assert((4 * i + 1) / 4 == i && (4 * i + 1) % 4 == 1);
    assert((4 * i + 2) / 4 == i && (4 * i + 2) % 4 == 2);
    assert((4 * i + 3) / 4 == i && (4 * i + 3) % 4 == 3);
}

/// No word is lost in the byte stream: four bytes in a row, starting at a
/// multiple of four, give back the word that they were written from.
pub proof fn lemma_bytes_give_back_words(words: Seq<u32>, i: int)
    requires
        0 <= i < words.len(),
    ensures
        le_word(
            le_bytes(words)[4 * i],
            le_bytes(words)[4 * i + 1],
            le_bytes(words)[4 * i + 2],
            le_bytes(words)[4 * i + 3],
        ) == words[i],
{
    lemma_byte_places(words, i);
    lemma_bytes_of_word(words[i]);
}

} // verus!
