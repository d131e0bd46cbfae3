//! Sets of squares as 64-bit words.
//!
//! A square is a number below 64: the file (a to h) counts from 0 in the low
//! three bits and the rank (1 to 8) from 0 in the next three, so a1 is 0, h1
//! is 7 and h8 is 63. A set of squares holds square `s` exactly when bit `s`
//! of the word is set.

use vstd::prelude::*;

verus! {

/// The set that holds the square `sq` and nothing else.
pub open spec fn bit(sq: u8) -> u64
    recommends
        sq < 64,
{
    1u64 << (sq as u64)
}

/// Whether the set `bb` holds the square `sq`.
pub open spec fn member(bb: u64, sq: u8) -> bool
    recommends
        sq < 64,
{
    bb & bit(sq) != 0
}

/// The set `bb` with the squares of `b` added (`on`) or taken out.
pub open spec fn put(bb: u64, b: u64, on: bool) -> u64 {
    if on {
        bb | b
    } else {
        bb & !b
    }
}

/// How many of the squares below `n` the set `bb` holds.
pub open spec fn count_below(bb: u64, n: nat) -> nat
    decreases n,
{
    if n == 0 {
        0
    } else {
        count_below(bb, (n - 1) as nat) + if member(bb, (n - 1) as u8) {
            1nat
        } else {
            0nat
        }
    }
}

/// How many squares the set `bb` holds.
pub open spec fn count(bb: u64) -> nat {
    count_below(bb, 64)
}

/// What `put` does to each square: the square `sq` is set as asked and
/// every other square is left as it was.
pub proof fn lemma_put_member(bb: u64, sq: u8, on: bool, t: u8)
    requires
        sq < 64,
        t < 64,
    ensures
        member(put(bb, bit(sq), on), t) == (if t == sq {
            on
        } else {
            member(bb, t)
        }),
{
    let b = bit(sq);
    let c = bit(t);
    assert(b == 1u64 << (sq as u64));
    assert(c == 1u64 << (t as u64));
    assert(((bb | b) & c != 0) == (if t == sq {
        true
    } else {
        bb & c != 0
    })) by (bit_vector)
        requires
            sq < 64,
            t < 64,
            b == 1u64 << (sq as u64),
            c == 1u64 << (t as u64),
    ;
    assert(((bb & !b) & c != 0) == (if t == sq {
        false
    } else {
        bb & c != 0
    })) by (bit_vector)
        requires
            sq < 64,
            t < 64,
            b == 1u64 << (sq as u64),
            c == 1u64 << (t as u64),
    ;
}

/// The lowest square of a set that is not empty.
pub open spec fn lowest(bb: u64) -> u8
    recommends
        bb != 0,
{
    vstd::std_specs::bits::u64_trailing_zeros(bb) as u8
}

/// A set that is not empty holds its lowest square.
pub proof fn lemma_lowest(bb: u64)
    requires
        bb != 0,
    ensures
        lowest(bb) < 64,
        member(bb, lowest(bb)),
{
    vstd::std_specs::bits::axiom_u64_trailing_zeros(bb);
    let t = vstd::std_specs::bits::u64_trailing_zeros(bb) as u64;
    assert(bb & (1u64 << t) != 0) by (bit_vector)
        requires
            t < 64,
            (bb >> t) & 1u64 == 1u64,
    ;
}

/// Two sets with the same squares are the same set.
pub proof fn lemma_same_squares(a: u64, b: u64)
    requires
        forall|s: u8| s < 64 ==> member(a, s) == member(b, s),
    ensures
        a == b,
{
    if a != b {
        let x = a ^ b;
        assert(x != 0) by (bit_vector)
            requires
                a != b,
                x == a ^ b,
        ;
        lemma_lowest(x);
        lemma_member_ops(a, b, lowest(x));
    }
}

/// The squares of a union, an intersection, a difference and an exclusive-or
/// of two sets.
pub proof fn lemma_member_ops(a: u64, b: u64, s: u8)
    requires
        s < 64,
    ensures
        member(a | b, s) == (member(a, s) || member(b, s)),
        member(a & b, s) == (member(a, s) && member(b, s)),
        member(a & !b, s) == (member(a, s) && !member(b, s)),
        member(a ^ b, s) == (member(a, s) != member(b, s)),
        !member(0, s),
{
    let c = bit(s);
    assert(c == 1u64 << (s as u64));
    assert({
        &&& ((a | b) & c != 0) == ((a & c != 0) || (b & c != 0))
        &&& ((a & b) & c != 0) == ((a & c != 0) && (b & c != 0))
        &&& ((a & !b) & c != 0) == ((a & c != 0) && !(b & c != 0))
        &&& ((a ^ b) & c != 0) == ((a & c != 0) != (b & c != 0))
        &&& 0u64 & c == 0
    }) by (bit_vector)
        requires
            s < 64,
            c == 1u64 << (s as u64),
    ;
}

/// The set that holds one square.
pub fn square_bit(sq: u8) -> (b: u64)
    requires
        sq < 64,
    ensures
        b == bit(sq),
        b != 0,
{
    proof {
        let s = sq as u64;
        assert(1u64 << s != 0) by (bit_vector)
            requires
                s < 64,
        ;
    }
    1u64 << (sq as u64)
}

/// Whether the set `bb` holds the square `sq`.
pub fn holds(bb: u64, sq: u8) -> (r: bool)
    requires
        sq < 64,
    ensures
        r == member(bb, sq),
{
    bb & square_bit(sq) != 0
}

/// Counts the squares of a set.
pub fn count_squares(bb: u64) -> (n: u32)
    ensures
        n == count(bb),
        n <= 64,
{
    let mut n: u32 = 0;
    let mut sq: u8 = 0;
    while sq < 64
        invariant
            sq <= 64,
            n == count_below(bb, sq as nat),
            n <= sq,
        decreases 64 - sq,
    {
        if holds(bb, sq) {
            n = n + 1;
        }
        sq = sq + 1;
    }
    n
}

} // verus!
