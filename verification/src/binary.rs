//! What the words of an instruction say.

use vstd::prelude::*;

use crate::builder::member_name_instruction;
use crate::builder::name_instruction;
use crate::builder::ModuleState;
use crate::words::instruction;
use crate::words::le_bytes;
use crate::words::lemma_byte_places;
use crate::words::lemma_bytes_of_word;
use crate::words::low32;
use crate::words::string_words;

verus! {

/// An instruction with this opcode and these operands: the lower half of the
/// first word is the opcode, its upper half the number of words (modulo 2^16),
/// and the operands follow.
pub open spec fn is_instruction(inst: Seq<u32>, opcode: int, operands: Seq<u32>) -> bool {
    &&& inst.len() == operands.len() + 1
    &&& inst[0] == opcode + 0x1_0000 * (inst.len() % 0x1_0000)
    &&& forall|i: int| 0 <= i < operands.len() ==> inst[i + 1] == #[trigger] operands[i]
}

/// The byte at a position, zero behind the end.
pub open spec fn padded(bytes: Seq<u8>, k: int) -> int {
    if k < bytes.len() {
        bytes[k] as int
    } else {
        0
    }
}

/// Words that spell a text: its UTF-8 bytes, four to a word with the first in
/// the lowest place, then zeros, at least one, to the end of the last word.
pub open spec fn spells(words: Seq<u32>, text: Seq<char>) -> bool {
    let bytes = vstd::utf8::encode_utf8(text);
    &&& bytes.len() < 4 * words.len() <= bytes.len() + 4
    &&& forall|i: int|
        0 <= i < words.len() ==> #[trigger] words[i] == padded(bytes, 4 * i) + 0x100 * padded(
            bytes,
            4 * i + 1,
        ) + 0x1_0000 * padded(bytes, 4 * i + 2) + 0x100_0000 * padded(bytes, 4 * i + 3)
}

/// An instruction that names the target of an id.
pub open spec fn names_target(inst: Seq<u32>, target: u32, text: Seq<char>) -> bool {
    &&& inst.len() > 2
    &&& is_instruction(inst, 5, inst.skip(1))
    &&& inst[1] == target
    &&& spells(inst.skip(2), text)
}

/// An instruction that names a member of a structure type.
pub open spec fn names_member(inst: Seq<u32>, target: u32, member: int, text: Seq<char>) -> bool {
    &&& inst.len() > 3
    &&& is_instruction(inst, 6, inst.skip(1))
    &&& inst[1] == target
    &&& inst[2] == member % 0x1_0000_0000
    &&& spells(inst.skip(3), text)
}

/// The low word of an integer differs from it by a multiple of 2^32.
pub proof fn lemma_low_word(n: int)
    ensures
        (n - low32(n)) % 0x1_0000_0000 == 0,
        0 <= n < 0x1_0000_0000 ==> low32(n) == n,
{
}

/// An instruction says what it is made of, so two of them are the same only if
/// they have the same opcode and the same operands.
pub proof fn lemma_instruction_says(opcode: u32, operands: Seq<u32>)
    requires
        opcode < 0x1_0000,
    ensures
        is_instruction(instruction(opcode, operands), opcode as int, operands),
        instruction(opcode, operands).skip(1) == operands,
{
    let inst = instruction(opcode, operands);
    assert(inst.len() == operands.len() + 1);
    assert(inst.skip(1) =~= operands);
    assert(forall|i: int| 0 <= i < operands.len() ==> inst[i + 1] == #[trigger] operands[i]);
}

/// Two instructions with the same opcode and operands are the same.
pub proof fn lemma_instruction_determined(
    a: Seq<u32>,
    b: Seq<u32>,
    opcode: int,
    operands: Seq<u32>,
)
    requires
        is_instruction(a, opcode, operands),
        is_instruction(b, opcode, operands),
    ensures
        a == b,
{
    assert forall|k: int| 0 <= k < a.len() implies a[k] == b[k] by {
        if k > 0 {
            assert(a[(k - 1) + 1] == operands[k - 1]);
            assert(b[(k - 1) + 1] == operands[k - 1]);
        }
    }
    assert(a =~= b);
}

/// The words of a literal string spell it.
pub proof fn lemma_string_words_spell(text: Seq<char>)
    ensures
        spells(string_words(text), text),
{
}

/// A name is given to its target, in its own letters.
pub proof fn lemma_name_says(target: u32, text: Seq<char>)
    ensures
        names_target(name_instruction(target, text), target, text),
{
    let words = string_words(text);
    let rest = seq![target] + words;
    let inst = name_instruction(target, text);
    lemma_string_words_spell(text);
    lemma_instruction_says(5, rest);
    assert(inst[1] == rest[0]);
    assert(inst.skip(2) =~= words) by {
        assert(forall|i: int| 0 <= i < words.len() ==> rest[i + 1] == words[i]);
        assert(inst.skip(1) == rest);
    }
}

/// A name is given to its member, in its own letters.
pub proof fn lemma_member_name_says(target: u32, member: int, text: Seq<char>)
    ensures
        names_member(
            member_name_instruction(target, low32(member), text),
            target,
            member,
            text,
        ),
{
    let words = string_words(text);
    let rest = seq![target, low32(member)] + words;
    let inst = member_name_instruction(target, low32(member), text);
    lemma_string_words_spell(text);
    lemma_instruction_says(6, rest);
    assert(inst[1] == rest[0]);
    assert(inst[2] == rest[1]);
    assert(inst.skip(3) =~= words) by {
        assert(inst.skip(1) == rest);
    }
}

/// A finished module is a header and then every instruction, section by section:
/// the magic number, the version, the generator, the bound of the ids, and zero.
pub proof fn lemma_assembled_says(module: ModuleState)
    ensures
        module.assembled().len() >= 5,
        module.assembled()[0] == 0x0723_0203,
        module.assembled()[1] == module.version,
        module.assembled()[2] == 0x000f_0000,
        module.assembled()[3] == module.next_id as u32,
        module.assembled()[4] == 0,
        module.assembled().skip(5) == module.sections.flatten().flatten(),
{
    assert(module.assembled().skip(5) =~= module.sections.flatten().flatten());
}

/// A byte stream holds its words, the lowest byte of each first, and nothing
/// else.
pub proof fn lemma_bytes_hold_words(words: Seq<u32>)
    ensures
        le_bytes(words).len() == 4 * words.len(),
        forall|i: int|
            0 <= i < words.len() ==> #[trigger] words[i] == le_bytes(words)[4 * i] + 0x100
                * le_bytes(words)[4 * i + 1] + 0x1_0000 * le_bytes(words)[4 * i + 2] + 0x100_0000
                * le_bytes(words)[4 * i + 3],
{
    assert forall|i: int| 0 <= i < words.len() implies #[trigger] words[i] == le_bytes(
        words,
    )[4 * i] + 0x100 * le_bytes(words)[4 * i + 1] + 0x1_0000 * le_bytes(words)[4 * i + 2]
        + 0x100_0000 * le_bytes(words)[4 * i + 3] by {
        lemma_byte_places(words, i);
        lemma_bytes_of_word(words[i]);
    }
}

} // verus!
