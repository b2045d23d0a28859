//! Bytes within the words of the child's memory. The child's memory is read
//! and written a word at a time; a breakpoint changes one byte of a word.

use vstd::prelude::*;
use crate::breakpoints::TRAP_BYTE;

verus! {

/// The number of bytes in a word of the child's memory.
pub const BYTES_PER_WORD: usize = 8;

/// The byte at place `offset` of `word`, counted from the lowest.
pub open spec fn byte_at(word: u64, offset: u64) -> u8 {
    ((word >> (8 * offset)) & 0xff) as u8
}

/// `word` with `byte` at place `offset`.
pub open spec fn with_byte(word: u64, offset: u64, byte: u8) -> u64 {
    (word & !(0xffu64 << (8 * offset))) | ((byte as u64) << (8 * offset))
}

/// The address of the word in which `addr` lies.
pub fn word_address(addr: usize) -> (aligned: usize)
    ensures
        aligned == addr - addr % BYTES_PER_WORD,
        aligned % BYTES_PER_WORD == 0,
        aligned <= addr < aligned + BYTES_PER_WORD,
{
    addr - addr % BYTES_PER_WORD
}

/// The place of `addr` in its word.
pub fn word_offset(addr: usize) -> (offset: u64)
    ensures
        offset == addr % BYTES_PER_WORD,
        offset < 8,
{
    (addr % BYTES_PER_WORD) as u64
}

/// Reads the byte at place `offset` of `word`.
pub fn read_byte(word: u64, offset: u64) -> (byte: u8)
    requires
        offset < 8,
    ensures
        byte == byte_at(word, offset),
{
    let shift: u64 = 8 * offset;
    ((word >> shift) & 0xff) as u8
}

/// Puts `byte` at place `offset` of `word`. Returns the new word and the byte
/// that stood there.
pub fn replace_byte(word: u64, offset: u64, byte: u8) -> (replaced: (u64, u8))
    requires
        offset < 8,
    ensures
        replaced.0 == with_byte(word, offset, byte),
        replaced.1 == byte_at(word, offset),
        byte_at(replaced.0, offset) == byte,
        forall|other: u64|
            other < 8 && other != offset ==> #[trigger] byte_at(replaced.0, other) == byte_at(
                word,
                other,
            ),
{
    let shift: u64 = 8 * offset;
    let previous = ((word >> shift) & 0xff) as u8;
    let updated = (word & !(0xffu64 << shift)) | ((byte as u64) << shift);
    proof {
        lemma_with_byte(word, offset, byte);
    }
    (updated, previous)
}

/// A byte that was put into a word is read back there, and every other byte
/// of the word is as it was.
pub proof fn lemma_with_byte(word: u64, offset: u64, byte: u8)
    requires
        offset < 8,
    ensures
        byte_at(with_byte(word, offset, byte), offset) == byte,
        forall|other: u64|
            other < 8 && other != offset ==> #[trigger] byte_at(
                with_byte(word, offset, byte),
                other,
            ) == byte_at(word, other),
{
    let b = byte as u64;
    assert((((word & !(0xffu64 << (8 * offset))) | (b << (8 * offset))) >> (8 * offset)) & 0xff
        == b) by (bit_vector)
        requires
            offset < 8,
            b < 256,
    ;
    assert forall|other: u64| other < 8 && other != offset implies #[trigger] byte_at(
        with_byte(word, offset, byte),
        other,
    ) == byte_at(word, other) by {
        assert((((word & !(0xffu64 << (8 * offset))) | (b << (8 * offset))) >> (8 * other)) & 0xff
            == (word >> (8 * other)) & 0xff) by (bit_vector)
            requires
                offset < 8,
                other < 8,
                other != offset,
                b < 256,
        ;
    }
}

/// Putting the trap over a byte of a word and then that byte over the trap
/// gives the word as it was, and reads the original byte back.
pub proof fn lemma_patch_then_restore(word: u64, offset: u64)
    requires
        offset < 8,
    ensures
        ({
            let original = byte_at(word, offset);
            let patched = with_byte(word, offset, TRAP_BYTE);
            &&& byte_at(patched, offset) == TRAP_BYTE
            &&& with_byte(patched, offset, original) == word
            &&& byte_at(with_byte(patched, offset, original), offset) == original
        }),
{
    lemma_with_byte(word, offset, TRAP_BYTE);
    let original = ((word >> (8 * offset)) & 0xff);
    assert(original < 256) by (bit_vector)
        requires
            original == ((word >> (8 * offset)) & 0xff),
    ;
    assert(original as u8 as u64 == original);
    assert((((word & !(0xffu64 << (8 * offset))) | (0xccu64 << (8 * offset))) & !(0xffu64 << (8
        * offset))) | (original << (8 * offset)) == word) by (bit_vector)
        requires
            offset < 8,
            original == ((word >> (8 * offset)) & 0xff),
    ;
}

} // verus!
