//! Byte-granular edits of a tracee's memory, which the kernel exposes one
//! machine word at a time.
use vstd::prelude::*;

verus! {

/// Size in bytes of a native machine word.
pub const WORD_SIZE: usize = 8;

/// The single-byte x86-64 trap opcode (`int3`).
pub const TRAP_OPCODE: u8 = 0xcc;

/// The byte at position `offset` (0 = least significant) of a little-endian word.
pub open spec fn byte_of(word: u64, offset: nat) -> u8 {
    ((word >> (8 * offset) as u64) & 0xff) as u8
}

/// The eight bytes of a word, in memory order.
pub open spec fn word_bytes(word: u64) -> Seq<u8> {
    Seq::new(8, |i: int| byte_of(word, i as nat))
}

/// The start of the word that holds `addr`.
pub open spec fn aligned(addr: usize) -> usize {
    (addr - addr % 8) as usize
}

/// Rounds `addr` down to the start of the machine word that contains it.
pub fn align_addr_to_word(addr: usize) -> (r: usize)
    ensures
        r == aligned(addr),
        r <= addr,
        addr - r < WORD_SIZE,
        r % 8 == 0,
{
    addr - addr % WORD_SIZE
}

proof fn lemma_byte_of_bits(word: u64, new_word: u64, shift: u64, value: u8)
    by (bit_vector)
    requires
        shift < 64,
        shift % 8 == 0,
        new_word == (word & !(0xffu64 << shift)) | ((value as u64) << shift),
    ensures
        ((new_word >> shift) & 0xff) as u8 == value,
        forall|s: u64|
            s < 64 && s % 8 == 0 && s != shift ==> #[trigger] ((new_word >> s) & 0xff) == ((word
                >> s) & 0xff),
{
}

/// `word` with the byte at position `offset` replaced by `value`.
pub open spec fn spliced(word: u64, offset: nat, value: u8) -> u64 {
    (word & !(0xffu64 << (8 * offset) as u64)) | ((value as u64) << (8 * offset) as u64)
}

/// Splicing a byte changes that byte of the word and no other.
pub proof fn lemma_spliced_bytes(word: u64, offset: nat, value: u8)
    requires
        offset < 8,
    ensures
        word_bytes(spliced(word, offset, value)) == word_bytes(word).update(offset as int, value),
{
    let shift = (8 * offset) as u64;
    let new_word = spliced(word, offset, value);
    lemma_byte_of_bits(word, new_word, shift, value);
    assert forall|i: int| 0 <= i < 8 implies #[trigger] word_bytes(new_word)[i] == word_bytes(
        word,
    ).update(offset as int, value)[i] by {
        if i != offset as int {
            let s = (8 * i) as u64;
            assert((new_word >> s) & 0xff == (word >> s) & 0xff);
        }
    }
    assert(word_bytes(new_word) =~= word_bytes(word).update(offset as int, value));
}

/// Replaces the byte at position `offset` of `word` by `value`. Returns the
/// new word and the byte that was there before.
pub fn splice_byte(word: u64, offset: usize, value: u8) -> (r: (u64, u8))
    requires
        offset < WORD_SIZE,
    ensures
        r.0 == spliced(word, offset as nat, value),
        r.1 == byte_of(word, offset as nat),
        word_bytes(r.0) == word_bytes(word).update(offset as int, value),
{
    let shift: u64 = 8 * offset as u64;
    let orig = ((word >> shift) & 0xff) as u8;
    let new_word = (word & !(0xffu64 << shift)) | ((value as u64) << shift);
    proof {
        lemma_spliced_bytes(word, offset as nat, value);
    }
    (new_word, orig)
}

/// Two words with the same bytes are the same word.
pub proof fn lemma_word_bytes_injective(a: u64, b: u64)
    requires
        word_bytes(a) == word_bytes(b),
    ensures
        a == b,
{
    assert forall|k: nat| k < 8 implies #[trigger] byte_of(a, k) == byte_of(b, k) by {
        assert(word_bytes(a)[k as int] == byte_of(a, k) && word_bytes(b)[k as int] == byte_of(b, k));
    }
    assert(a == b) by (bit_vector)
        requires
            byte_of(a, 0) == byte_of(b, 0),
            byte_of(a, 1) == byte_of(b, 1),
            byte_of(a, 2) == byte_of(b, 2),
            byte_of(a, 3) == byte_of(b, 3),
            byte_of(a, 4) == byte_of(b, 4),
            byte_of(a, 5) == byte_of(b, 5),
            byte_of(a, 6) == byte_of(b, 6),
            byte_of(a, 7) == byte_of(b, 7),
    ;
}

/// Writing a byte and then writing back the byte it displaced is a no-op on
/// the word; the second write hands back the byte the first one wrote, and
/// different bytes written at one place give different words.
pub proof fn lemma_write_back_restores(word: u64, offset: nat, value: u8, other: u8)
    requires
        offset < 8,
    ensures
        spliced(spliced(word, offset, value), offset, byte_of(word, offset)) == word,
        byte_of(spliced(word, offset, value), offset) == value,
        spliced(word, offset, value) == spliced(word, offset, other) ==> value == other,
{
    let w1 = spliced(word, offset, value);
    let w2 = spliced(w1, offset, byte_of(word, offset));
    lemma_spliced_bytes(word, offset, value);
    lemma_spliced_bytes(w1, offset, byte_of(word, offset));
    lemma_spliced_bytes(word, offset, other);
    assert(word_bytes(word)[offset as int] == byte_of(word, offset));
    assert(word_bytes(w1)[offset as int] == byte_of(w1, offset));
    assert(word_bytes(w2) =~= word_bytes(word));
    lemma_word_bytes_injective(w2, word);
    assert(word_bytes(spliced(word, offset, other))[offset as int] == other);
}

} // verus!
