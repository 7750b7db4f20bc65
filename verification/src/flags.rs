//! Status words: an unsigned word whose low eight bits a guest can read, and
//! whose individual bits are raised and lowered as flags.

use vstd::prelude::*;

verus! {

/// Whether some bit of `flag` is raised in `word`.
pub open spec fn is_set(word: usize, flag: usize) -> bool {
    word & flag != 0
}

/// The byte of a status word that a guest observes.
pub open spec fn guest_byte(word: usize) -> u8 {
    (word & 0xff) as u8
}

/// Tests a flag.
pub fn holds(word: usize, flag: usize) -> (set: bool)
    ensures
        set == is_set(word, flag),
{
    word & flag != 0
}

/// Raises the bits of `flag`.
pub fn raise(word: usize, flag: usize) -> (raised: usize)
    ensures
        raised == word | flag,
{
    word | flag
}

/// Lowers the bits of `flag`.
pub fn lower(word: usize, flag: usize) -> (lowered: usize)
    ensures
        lowered == word & !flag,
{
    word & !flag
}

/// Reads the low eight bits of a status word.
pub fn low_byte(word: usize) -> (byte: u8)
    ensures
        byte == guest_byte(word),
{
    let low: usize = word & 0xff;
    assert(low <= 0xff) by (bit_vector)
        requires
            low == word & 0xff,
    ;
    low as u8
}

/// Raising `flag` sets it and leaves every other bit as it was.
pub proof fn lemma_raise(word: usize, flag: usize, other: usize)
    ensures
        is_set(word | flag, other) == (is_set(word, other) || is_set(flag, other)),
{
    assert(((word | flag) & other != 0) == ((word & other != 0) || (flag & other != 0)))
        by (bit_vector);
}

/// Lowering `flag` clears it and leaves every bit outside it as it was.
pub proof fn lemma_lower(word: usize, flag: usize, other: usize)
    ensures
        !is_set(word & !flag, flag),
        !is_set(flag, other) ==> is_set(word & !flag, other) == is_set(word, other),
{
    assert((word & !flag) & flag == 0) by (bit_vector);
    assert(flag & other == 0 ==> (word & !flag) & other == word & other) by (bit_vector);
}

/// Lowering a flag whose bits are all raised, and raising it again, restores the word.
pub proof fn lemma_lower_raise(word: usize, flag: usize)
    requires
        word & flag == flag,
    ensures
        (word & !flag) | flag == word,
{
    assert(word & flag == flag ==> (word & !flag) | flag == word) by (bit_vector);
}

} // verus!
