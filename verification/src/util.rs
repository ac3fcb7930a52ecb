use vstd::prelude::*;

verus! {

/// 1 for a set flag, 0 for a clear one.
pub open spec fn bit_value(b: bool) -> int {
    if b {
        1
    } else {
        0
    }
}

/// The `n`th bit (0-based, counted from the least significant bit) of `x`.
pub open spec fn nth_bit(x: u8, n: nat) -> bool {
    (x >> n) & 1u8 == 1u8
}

/// `x` with its `n`th bit set.
pub open spec fn with_bit_set(x: u8, n: nat) -> u8 {
    x | (1u8 << n)
}

/// `x` with its `n`th bit cleared.
pub open spec fn with_bit_cleared(x: u8, n: nat) -> u8 {
    x & !(1u8 << n)
}

/// Checks if the nth bit (0-based) is set.
pub fn is_nth_bit_set(x: u8, n: usize) -> (r: bool)
    requires
        n < 8,
    ensures
        r == nth_bit(x, n as nat),
{
    let k: u8 = n as u8;
    assert(((x & (1u8 << k)) != 0) == ((x >> k) & 1u8 == 1u8)) by (bit_vector)
        requires
            k < 8,
    ;
    (x & (1u8 << k)) != 0
}

/// Sets the nth bit (0-based).
pub fn set_nth_bit(x: u8, n: usize) -> (r: u8)
    requires
        n < 8,
    ensures
        r == with_bit_set(x, n as nat),
{
    let k: u8 = n as u8;
    x | (1u8 << k)
}

/// Clears the nth bit (0-based).
pub fn clear_nth_bit(x: u8, n: usize) -> (r: u8)
    requires
        n < 8,
    ensures
        r == with_bit_cleared(x, n as nat),
{
    let k: u8 = n as u8;
    x & !(1u8 << k)
}

/// Setting bit `n` makes it read back as set and leaves every other bit as it was.
pub proof fn lemma_set_bit(x: u8, n: nat, m: nat)
    requires
        n < 8,
        m < 8,
    ensures
        nth_bit(with_bit_set(x, n), n),
        m != n ==> nth_bit(with_bit_set(x, n), m) == nth_bit(x, m),
{
    let k = n as u8;
    let j = m as u8;
    assert(((x | (1u8 << k)) >> k) & 1u8 == 1u8) by (bit_vector)
        requires
            k < 8,
    ;
    assert(j != k ==> (((x | (1u8 << k)) >> j) & 1u8 == 1u8) == ((x >> j) & 1u8 == 1u8))
        by (bit_vector)
        requires
            k < 8,
            j < 8,
    ;
}

/// Clearing bit `n` makes it read back as clear and leaves every other bit as it was.
pub proof fn lemma_clear_bit(x: u8, n: nat, m: nat)
    requires
        n < 8,
        m < 8,
    ensures
        !nth_bit(with_bit_cleared(x, n), n),
        m != n ==> nth_bit(with_bit_cleared(x, n), m) == nth_bit(x, m),
{
    let k = n as u8;
    let j = m as u8;
    assert(((x & !(1u8 << k)) >> k) & 1u8 != 1u8) by (bit_vector)
        requires
            k < 8,
    ;
    assert(j != k ==> (((x & !(1u8 << k)) >> j) & 1u8 == 1u8) == ((x >> j) & 1u8 == 1u8))
        by (bit_vector)
        requires
            k < 8,
            j < 8,
    ;
}

} // verus!
