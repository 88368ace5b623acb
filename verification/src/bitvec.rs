//! Fixed-width priority bitmaps.
//!
//! A `BitVec` is one machine word used as an array of 32 booleans; it backs
//! every index structure of the kernel: the scheduler's `used` / `ready` /
//! `sleeping` maps, timer slots and semaphore wait sets.  `BitList` is a slot
//! table whose occupancy is tracked by a companion `BitVec`.  `AtomicBitVec`
//! mirrors `BitVec` for the wait sets that interrupt handlers touch on the
//! target hardware; on a single core every mutation happens under the
//! critical-section discipline, so it is a plain word as well.

use vstd::prelude::*;

verus! {

use vstd::std_specs::bits::u32_trailing_zeros;
use vstd::std_specs::bits::u32_leading_zeros;
use vstd::std_specs::bits::group_bits_axioms;

broadcast use group_bits_axioms;

/// Whether bit `i` of the word `v` is one.  All bitmap contracts are phrased
/// through this predicate.
pub open spec fn nth_bit(v: u32, i: u32) -> bool {
    (v >> i) & 1u32 == 1u32
}

/// The pointwise readings of the word operations, used throughout the crate.
pub broadcast group group_bitmap_lemmas {
    lemma_set_bit,
    lemma_clear_bit,
    lemma_toggle_bit,
    lemma_and_bits,
    lemma_or_bits,
    lemma_xor_bits,
    lemma_not_bits,
    lemma_nonzero_bit,
    lemma_single_bit,
    lemma_bit_zero_or_one,
    lemma_full_bit,
    lemma_check_bit,
}

/// Setting bit `b` leaves exactly the bits of `v` plus `b` set.
pub broadcast proof fn lemma_set_bit(v: u32, b: u32, j: u32)
    by (bit_vector)
    requires
        b < 32,
        j < 32,
    ensures
        #[trigger] nth_bit(v | (1u32 << b), j) <==> (j == b || nth_bit(v, j)),
{
}

/// Clearing bit `b` leaves exactly the bits of `v` minus `b` set.
pub broadcast proof fn lemma_clear_bit(v: u32, b: u32, j: u32)
    by (bit_vector)
    requires
        b < 32,
        j < 32,
    ensures
        #[trigger] nth_bit(v & !(1u32 << b), j) <==> (j != b && nth_bit(v, j)),
{
}

/// Toggling bit `b` inverts it and leaves every other bit alone.
pub broadcast proof fn lemma_toggle_bit(v: u32, b: u32, j: u32)
    by (bit_vector)
    requires
        b < 32,
        j < 32,
    ensures
        #[trigger] nth_bit(v ^ (1u32 << b), j) <==> (nth_bit(v, j) != (j == b)),
{
}

/// Bitwise and is pointwise conjunction.
pub broadcast proof fn lemma_and_bits(a: u32, b: u32, j: u32)
    by (bit_vector)
    ensures
        #[trigger] nth_bit(a & b, j) <==> (nth_bit(a, j) && nth_bit(b, j)),
{
}

/// Bitwise or is pointwise disjunction.
pub broadcast proof fn lemma_or_bits(a: u32, b: u32, j: u32)
    by (bit_vector)
    ensures
        #[trigger] nth_bit(a | b, j) <==> (nth_bit(a, j) || nth_bit(b, j)),
{
}

/// Bitwise xor is pointwise inequality.
pub broadcast proof fn lemma_xor_bits(a: u32, b: u32, j: u32)
    by (bit_vector)
    ensures
        #[trigger] nth_bit(a ^ b, j) <==> (nth_bit(a, j) != nth_bit(b, j)),
{
}

/// Complement inverts every bit of the word.
pub broadcast proof fn lemma_not_bits(a: u32, j: u32)
    by (bit_vector)
    requires
        j < 32,
    ensures
        #[trigger] nth_bit(!a, j) <==> !nth_bit(a, j),
{
}

/// A word with a bit set is not zero, and the zero word has no bit set.
pub broadcast proof fn lemma_nonzero_bit(v: u32, j: u32)
    by (bit_vector)
    ensures
        #[trigger] nth_bit(v, j) ==> v != 0,
{
}

/// A single-bit mask has exactly that bit set.
pub broadcast proof fn lemma_single_bit(b: u32, j: u32)
    by (bit_vector)
    requires
        b < 32,
        j < 32,
    ensures
        #[trigger] nth_bit(1u32 << b, j) <==> j == b,
{
}

/// Each bit position reads as zero or as one; this bridges the two phrasings.
pub broadcast proof fn lemma_bit_zero_or_one(v: u32, j: u32)
    by (bit_vector)
    ensures
        ((v >> j) & 1u32 == 0u32) <==> !#[trigger] nth_bit(v, j),
{
}

/// The all-ones word has every bit set.
pub broadcast proof fn lemma_full_bit(j: u32)
    by (bit_vector)
    requires
        j < 32,
    ensures
        #[trigger] nth_bit(0xffff_ffffu32, j),
{
}

/// Masking with a single-bit mask tests exactly that bit.
pub broadcast proof fn lemma_check_bit(v: u32, b: u32)
    by (bit_vector)
    requires
        b < 32,
    ensures
        ((v & (1u32 << b)) != 0) <==> #[trigger] nth_bit(v, b),
{
}

/// Words that differ somewhere have a differing bit below 32.
proof fn lemma_neq_has_witness(a: u32, b: u32)
    requires
        a != b,
    ensures
        exists|j: u32| j < 32 && #[trigger] nth_bit(a, j) != nth_bit(b, j),
{
    assert(a != b ==> a ^ b != 0) by (bit_vector);
    let w = u32_trailing_zeros(a ^ b);
    assert(nth_bit(a ^ b, w));
    assert(nth_bit(a, w) != nth_bit(b, w)) by {
        broadcast use lemma_xor_bits;

    }
}

/// Two words with the same bits are the same word.
pub proof fn lemma_bit_extensionality(a: u32, b: u32)
    requires
        forall|j: u32| j < 32 ==> #[trigger] nth_bit(a, j) == nth_bit(b, j),
    ensures
        a == b,
{
    if a != b {
        lemma_neq_has_witness(a, b);
    }
}

/// The highest set bit of `v` below position `n`, or -1 when none is set.
pub open spec fn highest_set_below(v: u32, n: nat) -> int
    decreases n,
{
    if n == 0 {
        -1
    } else if nth_bit(v, (n - 1) as u32) {
        (n - 1) as int
    } else {
        highest_set_below(v, (n - 1) as nat)
    }
}

/// What `highest_set_below` returns: -1 exactly on an empty range, else the
/// set position that every higher position in the range is clear above.
pub proof fn lemma_highest_set_below(v: u32, n: nat)
    requires
        n <= 32,
    ensures
        highest_set_below(v, n) == -1 <==> (forall|j: u32| j < n ==> !nth_bit(v, j)),
        highest_set_below(v, n) >= 0 ==> highest_set_below(v, n) < n && nth_bit(
            v,
            highest_set_below(v, n) as u32,
        ) && (forall|j: u32| highest_set_below(v, n) < j < n ==> !nth_bit(v, j)),
    decreases n,
{
    if n > 0 {
        lemma_highest_set_below(v, (n - 1) as nat);
    }
}

/// A set position above which everything is clear is the highest set
/// position of the range.
pub proof fn lemma_highest_unique_below(v: u32, i: u32, n: nat)
    requires
        i < n,
        n <= 32,
        nth_bit(v, i),
        forall|j: u32| i < j < n ==> !#[trigger] nth_bit(v, j),
    ensures
        highest_set_below(v, n) == i,
    decreases n,
{
    if n - 1 > i {
        assert(!nth_bit(v, (n - 1) as u32));
        lemma_highest_unique_below(v, i, (n - 1) as nat);
    }
}

/// The number of set bits of `v` among the positions below `n`.
pub open spec fn count_bits_below(v: u32, n: nat) -> nat
    decreases n,
{
    if n == 0 {
        0
    } else {
        count_bits_below(v, (n - 1) as nat) + if nth_bit(v, (n - 1) as u32) {
            1nat
        } else {
            0nat
        }
    }
}

/// At most `n` of the first `n` positions are set.
pub proof fn lemma_count_bits_below_bound(v: u32, n: nat)
    ensures
        count_bits_below(v, n) <= n,
    decreases n,
{
    if n > 0 {
        lemma_count_bits_below_bound(v, (n - 1) as nat);
    }
}

/// Words with the same bits below `n` count the same below `n`.
pub proof fn lemma_count_bits_below_congruence(a: u32, b: u32, n: nat)
    requires
        n <= 32,
        forall|j: u32| j < n ==> #[trigger] nth_bit(a, j) == nth_bit(b, j),
    ensures
        count_bits_below(a, n) == count_bits_below(b, n),
    decreases n,
{
    if n > 0 {
        lemma_count_bits_below_congruence(a, b, (n - 1) as nat);
    }
}

/// The set positions of `v` at or above `n`, highest first.
pub open spec fn bits_desc_from(v: u32, n: nat) -> Seq<usize>
    decreases 32 - n,
{
    if n >= 32 {
        Seq::empty()
    } else {
        let rest = bits_desc_from(v, n + 1);
        if nth_bit(v, n as u32) {
            rest.push(n as usize)
        } else {
            rest
        }
    }
}

/// Every listed position of the descending walk is a set bit below 32.
pub proof fn lemma_bits_desc_elements(v: u32, n: nat)
    ensures
        forall|k: int|
            0 <= k < bits_desc_from(v, n).len() ==> (#[trigger] bits_desc_from(v, n)[k]) < 32
                && nth_bit(v, bits_desc_from(v, n)[k] as u32),
    decreases 32 - n,
{
    if n < 32 {
        lemma_bits_desc_elements(v, n + 1);
        let cur = bits_desc_from(v, n);
        let rest = bits_desc_from(v, n + 1);
        assert forall|k: int|
            0 <= k < cur.len() implies (#[trigger] cur[k]) < 32 && nth_bit(v, cur[k] as u32) by {
            if k < rest.len() {
                assert(cur[k] == rest[k]);
            } else {
                assert(cur[k] == cur.last());
            }
        }
    }
}

/// A single machine-word bitmap: 32 slots, each either set or clear.
#[derive(Debug, Clone, Copy, PartialEq, Eq, Structural)]
pub struct BitVec(u32);

impl BitVec {
    /// Number of bits held by the vector.
    pub const BITS: usize = 32;

    /// Highest bit index, counting from zero.
    pub const HIGHEST_BIT: usize = 31;

    /// Mask of all ones.
    pub const MASK: u32 = 0xffff_ffff;

    /// The raw word behind the bitmap.
    pub closed spec fn spec_raw(self) -> u32 {
        self.0
    }

    /// Whether slot `i` is set.
    #[verifier::inline]
    pub open spec fn spec_check(self, i: u32) -> bool {
        nth_bit(self.spec_raw(), i)
    }

    /// The number of set slots.
    pub open spec fn spec_count(self) -> nat {
        count_bits_below(self.spec_raw(), 32)
    }

    /// Whether no slot is set.
    pub open spec fn spec_is_empty(self) -> bool {
        forall|j: u32| j < 32 ==> !self.spec_check(j)
    }

    /// Whether every slot set in `pattern` is also set in `self`.
    pub open spec fn spec_superset_of(self, pattern: BitVec) -> bool {
        forall|j: u32| j < 32 && pattern.spec_check(j) ==> self.spec_check(j)
    }

    /// The highest set slot, or -1 when the vector is empty.
    pub open spec fn spec_highest(self) -> int {
        highest_set_below(self.spec_raw(), 32)
    }

    /// Create a new, empty vector.
    pub fn new() -> (r: BitVec)
        ensures
            r.spec_raw() == 0u32,
            r.spec_is_empty(),
    {
        proof {
            broadcast use lemma_nonzero_bit;

        }
        BitVec(0)
    }

    /// Create a vector holding the given word.
    pub fn init(vec: u32) -> (r: BitVec)
        ensures
            r.spec_raw() == vec,
    {
        BitVec(vec)
    }

    /// Sets a single bit in the vector.
    pub fn set(&mut self, bit: usize)
        requires
            bit < 32,
        ensures
            final(self).spec_raw() == (old(self).spec_raw() | (1u32 << bit as u32)),
            forall|j: u32|
                j < 32 ==> (final(self).spec_check(j) <==> (j == bit || old(self).spec_check(j))),
    {
        proof {
            broadcast use lemma_set_bit;

        }
        self.0 = self.0 | (1u32 << bit as u32);
    }

    /// Clears a single bit in the vector.
    pub fn clear(&mut self, bit: usize)
        requires
            bit < 32,
        ensures
            final(self).spec_raw() == (old(self).spec_raw() & !(1u32 << bit as u32)),
            forall|j: u32|
                j < 32 ==> (final(self).spec_check(j) <==> (j != bit && old(self).spec_check(j))),
    {
        proof {
            broadcast use lemma_clear_bit;

        }
        self.0 = self.0 & !(1u32 << bit as u32);
    }

    /// Toggles a single bit in the vector.
    pub fn toggle(&mut self, bit: usize)
        requires
            bit < 32,
        ensures
            forall|j: u32|
                j < 32 ==> (final(self).spec_check(j) <==> (old(self).spec_check(j) != (j
                    == bit))),
    {
        proof {
            broadcast use lemma_toggle_bit;

        }
        self.0 = self.0 ^ (1u32 << bit as u32);
    }

    /// Checks if a bit is set.
    pub fn check(&self, bit: usize) -> (r: bool)
        requires
            bit < 32,
        ensures
            r == self.spec_check(bit as u32),
    {
        proof {
            broadcast use lemma_check_bit;

        }
        (self.0 & (1u32 << bit as u32)) != 0
    }

    /// Get vector as raw number.
    pub fn raw(&self) -> (r: u32)
        ensures
            r == self.spec_raw(),
    {
        self.0
    }

    /// Sets vector to zero.
    pub fn reset(&mut self)
        ensures
            final(self).spec_raw() == 0u32,
            final(self).spec_is_empty(),
    {
        proof {
            broadcast use lemma_nonzero_bit;

        }
        self.0 = 0;
    }

    /// Whether every slot is set.
    pub open spec fn spec_is_full(self) -> bool {
        forall|j: u32| j < 32 ==> self.spec_check(j)
    }

    /// Returns true if there is one or more bits set.
    pub fn is_populated(&self) -> (r: bool)
        ensures
            r == !self.spec_is_empty(),
    {
        proof {
            broadcast use lemma_nonzero_bit;

            if self.0 != 0 {
                lemma_nonzero_has_bit(self.spec_raw());
            }
        }
        self.0 != 0
    }

    /// Returns true if vector is empty.
    pub fn is_empty(&self) -> (r: bool)
        ensures
            r == self.spec_is_empty(),
    {
        proof {
            broadcast use lemma_nonzero_bit;

            if self.0 != 0 {
                lemma_nonzero_has_bit(self.spec_raw());
            }
        }
        self.0 == 0
    }

    /// Inverts (toggles) all bits in vector.
    pub fn invert(&mut self)
        ensures
            forall|j: u32|
                j < 32 ==> (final(self).spec_check(j) <==> !old(self).spec_check(j)),
    {
        proof {
            broadcast use lemma_xor_bits, lemma_full_bit;

        }
        self.0 = self.0 ^ BitVec::MASK;
    }

    /// Bitand operation.
    pub fn and(&mut self, rhs: &BitVec)
        ensures
            final(self).spec_raw() == (old(self).spec_raw() & rhs.spec_raw()),
            forall|j: u32|
                j < 32 ==> (final(self).spec_check(j) <==> (old(self).spec_check(j)
                    && rhs.spec_check(j))),
    {
        proof {
            broadcast use lemma_and_bits;

        }
        self.0 = self.0 & rhs.0;
    }

    /// Bitor operation.
    pub fn or(&mut self, rhs: &BitVec)
        ensures
            final(self).spec_raw() == (old(self).spec_raw() | rhs.spec_raw()),
            forall|j: u32|
                j < 32 ==> (final(self).spec_check(j) <==> (old(self).spec_check(j)
                    || rhs.spec_check(j))),
    {
        proof {
            broadcast use lemma_or_bits;

        }
        self.0 = self.0 | rhs.0;
    }

    /// Bitxor operation.
    pub fn xor(&mut self, rhs: &BitVec)
        ensures
            forall|j: u32|
                j < 32 ==> (final(self).spec_check(j) <==> (old(self).spec_check(j)
                    != rhs.spec_check(j))),
    {
        proof {
            broadcast use lemma_xor_bits;

        }
        self.0 = self.0 ^ rhs.0;
    }

    /// Returns the bits in `pattern` that are not active in `self`.
    pub fn difference(&self, pattern: &BitVec) -> (r: BitVec)
        ensures
            forall|j: u32|
                j < 32 ==> (r.spec_check(j) <==> (pattern.spec_check(j) && !self.spec_check(j))),
    {
        proof {
            broadcast use lemma_xor_bits, lemma_and_bits;

        }
        BitVec((self.0 ^ pattern.0) & pattern.0)
    }

    /// Checks if vector contains at least one of pattern's bits.
    pub fn intersects(&self, pattern: &BitVec) -> (r: bool)
        ensures
            r == exists|j: u32| j < 32 && self.spec_check(j) && pattern.spec_check(j),
    {
        proof {
            broadcast use lemma_and_bits, lemma_nonzero_bit;

            if self.0 & pattern.0 != 0 {
                lemma_nonzero_has_bit(self.spec_raw() & pattern.spec_raw());
                let w = choose|j: u32|
                    j < 32 && #[trigger] nth_bit(self.spec_raw() & pattern.spec_raw(), j);
                assert(nth_bit(self.spec_raw(), w) && nth_bit(pattern.spec_raw(), w));
            } else {
                assert forall|j: u32| j < 32 implies !(nth_bit(self.spec_raw(), j) && nth_bit(
                    pattern.spec_raw(),
                    j,
                )) by {
                    lemma_and_bits(self.spec_raw(), pattern.spec_raw(), j);
                    lemma_nonzero_bit(self.spec_raw() & pattern.spec_raw(), j);
                }
            }
        }
        (self.0 & pattern.0) != 0
    }

    /// Checks if the whole pattern is contained in `self`.
    pub fn superset_of(&self, pattern: &BitVec) -> (r: bool)
        ensures
            r == self.spec_superset_of(*pattern),
    {
        let diff = self.difference(pattern);
        diff.is_empty()
    }

    /// Counts the set bits of the vector.
    pub fn count_ones(&self) -> (r: usize)
        ensures
            r == self.spec_count(),
            r <= 32,
    {
        proof {
            lemma_count_bits_below_bound(self.spec_raw(), 32);
        }
        let mut cnt: usize = 0;
        let mut i: usize = 0;
        while i < 32
            invariant
                i <= 32,
                cnt == count_bits_below(self.spec_raw(), i as nat),
                cnt <= i,
            decreases 32 - i,
        {
            proof {
                lemma_count_bits_below_bound(self.spec_raw(), i as nat);
            }
            if self.check(i) {
                cnt = cnt + 1;
            }
            i = i + 1;
        }
        cnt
    }

    /// Counts the clear bits of the vector.
    pub fn count_zeroes(&self) -> (r: usize)
        ensures
            r + self.spec_count() == 32,
    {
        proof {
            lemma_count_bits_below_bound(self.spec_raw(), 32);
        }
        32 - self.count_ones()
    }

    /// Returns the index of the highest set bit, or refuses on an empty vector.
    pub fn find_highest_set(&self) -> (r: Result<usize, ()>)
        ensures
            match r {
                Ok(i) => i < 32 && i == self.spec_highest() && self.spec_check(i as u32)
                    && forall|j: u32| i < j < 32 ==> !self.spec_check(j),
                Err(()) => self.spec_is_empty() && self.spec_highest() == -1,
            },
    {
        proof {
            broadcast use lemma_nonzero_bit, lemma_bit_zero_or_one;

            lemma_highest_set_below(self.spec_raw(), 32);
        }
        if self.0 != 0 {
            let lz = self.0.leading_zeros() as usize;
            proof {
                let v = self.spec_raw();
                let i = 31 - u32_leading_zeros(v);
                assert(nth_bit(v, i as u32));
                assert forall|j: u32| i < j < 32 implies !nth_bit(v, j) by {}
                lemma_highest_unique_below(v, i as u32, 32);
            }
            Ok(31 - lz)
        } else {
            Err(())
        }
    }

    /// Returns the index of the lowest set bit, or refuses on an empty vector.
    pub fn find_first_set(&self) -> (r: Result<usize, ()>)
        ensures
            match r {
                Ok(i) => i < 32 && self.spec_check(i as u32) && forall|j: u32|
                    j < i ==> !self.spec_check(j),
                Err(()) => self.spec_is_empty(),
            },
    {
        proof {
            broadcast use lemma_nonzero_bit, lemma_bit_zero_or_one;

        }
        if self.0 != 0 {
            Ok(self.0.trailing_zeros() as usize)
        } else {
            Err(())
        }
    }

    /// Returns the index of the lowest clear bit, or refuses on a full vector.
    pub fn find_first_zero(&self) -> (r: Result<usize, ()>)
        ensures
            match r {
                Ok(i) => i < 32 && !self.spec_check(i as u32) && forall|j: u32|
                    j < i ==> self.spec_check(j),
                Err(()) => self.spec_is_full(),
            },
    {
        proof {
            broadcast use lemma_bit_zero_or_one, lemma_full_bit;

        }
        let ones = self.0.trailing_ones() as usize;
        if ones <= 31 {
            Ok(ones)
        } else {
            Err(())
        }
    }

    /// Sets the lowest clear bit, if any.
    pub fn set_first_zero(&mut self)
        ensures
            old(self).spec_is_full() ==> *final(self) == *old(self),
            !old(self).spec_is_full() ==> exists|z: u32|
                z < 32 && !old(self).spec_check(z) && (forall|j: u32|
                    j < z ==> old(self).spec_check(j)) && (forall|j: u32|
                    j < 32 ==> (final(self).spec_check(j) <==> (j == z || old(
                        self,
                    ).spec_check(j)))),
    {
        if let Ok(bit) = self.find_first_zero() {
            self.set(bit);
        }
    }

    /// Clears the lowest set bit, if any.
    pub fn clear_first_one(&mut self)
        ensures
            old(self).spec_is_empty() ==> *final(self) == *old(self),
            !old(self).spec_is_empty() ==> exists|z: u32|
                z < 32 && old(self).spec_check(z) && (forall|j: u32|
                    j < z ==> !old(self).spec_check(j)) && (forall|j: u32|
                    j < 32 ==> (final(self).spec_check(j) <==> (j != z && old(
                        self,
                    ).spec_check(j)))),
    {
        if let Ok(bit) = self.find_first_set() {
            self.clear(bit);
        }
    }

    /// The set slots, highest first: the order the scheduler walks ready
    /// tasks in.
    pub fn set_bits_descending(&self) -> (r: Vec<usize>)
        ensures
            r@ == bits_desc_from(self.spec_raw(), 0),
    {
        let mut out: Vec<usize> = Vec::new();
        let mut i: usize = 32;
        while i > 0
            invariant
                i <= 32,
                out@ == bits_desc_from(self.spec_raw(), i as nat),
            decreases i,
        {
            i = i - 1;
            if self.check(i) {
                out.push(i);
            }
            proof {
                assert(out@ =~= bits_desc_from(self.spec_raw(), i as nat));
            }
        }
        out
    }

    /// Create a copy with reversed bit order.
    pub fn reverse(&self) -> (r: BitVec)
        ensures
            forall|j: u32| j < 32 ==> (r.spec_check(j) <==> self.spec_check((31 - j) as u32)),
    {
        let mut out = BitVec::new();
        let mut i: usize = 0;
        while i < 32
            invariant
                i <= 32,
                forall|j: u32|
                    j < 32 && j >= 32 - i ==> (out.spec_check(j) <==> self.spec_check(
                        (31 - j) as u32,
                    )),
                forall|j: u32| j < 32 - i ==> !out.spec_check(j),
            decreases 32 - i,
        {
            if self.check(i) {
                out.set(31 - i);
            }
            i = i + 1;
        }
        out
    }
}

/// A word that is not zero has a set bit.
proof fn lemma_nonzero_has_bit(v: u32)
    requires
        v != 0,
    ensures
        exists|j: u32| j < 32 && #[trigger] nth_bit(v, j),
{
    broadcast use lemma_bit_zero_or_one;

    let w = u32_trailing_zeros(v);
    assert(nth_bit(v, w));
}

/// A slot table of 32 entries whose occupancy is tracked by a companion
/// `BitVec`: a slot holds a value exactly when its bit is set.
pub struct BitList<U> {
    bv: BitVec,
    list: Vec<Option<U>>,
}

impl<U> BitList<U> {
    /// Number of slots of every list.
    pub const SIZE: usize = 32;

    /// The occupancy bitmap.
    pub closed spec fn spec_bv(self) -> BitVec {
        self.bv
    }

    /// The slots themselves.
    pub closed spec fn spec_slots(self) -> Seq<Option<U>> {
        self.list@
    }

    /// A slot holds a value exactly when its occupancy bit is set.
    pub open spec fn wf(self) -> bool {
        &&& self.spec_slots().len() == 32
        &&& forall|i: u32|
            i < 32 ==> (self.spec_bv().spec_check(i) <==> self.spec_slots()[i as int] is Some)
    }

    /// Whether slot `i` is occupied.
    #[verifier::inline]
    pub open spec fn spec_occupied(self, i: u32) -> bool {
        self.spec_bv().spec_check(i)
    }

    /// The value in slot `i`, when there is one.
    #[verifier::inline]
    pub open spec fn spec_get(self, i: u32) -> Option<U> {
        self.spec_slots()[i as int]
    }

    /// Create an empty list.
    pub fn new() -> (r: BitList<U>)
        ensures
            r.wf(),
            forall|i: u32| i < 32 ==> !r.spec_occupied(i),
    {
        let mut list: Vec<Option<U>> = Vec::new();
        let mut i: usize = 0;
        while i < 32
            invariant
                i <= 32,
                list@.len() == i,
                forall|k: int| 0 <= k < i ==> list@[k] is None,
            decreases 32 - i,
        {
            list.push(None);
            i = i + 1;
        }
        BitList { bv: BitVec::new(), list }
    }

    /// Inserts a value in the lowest free slot and returns its index, or hands
    /// the value back when every slot is taken.
    pub fn insert(&mut self, element: U) -> (r: Result<usize, U>)
        requires
            old(self).wf(),
        ensures
            final(self).wf(),
            match r {
                Ok(idx) => {
                    &&& idx < 32
                    &&& !old(self).spec_occupied(idx as u32)
                    &&& forall|j: u32| j < idx ==> old(self).spec_occupied(j)
                    &&& final(self).spec_slots() == old(self).spec_slots().update(
                        idx as int,
                        Some(element),
                    )
                    &&& forall|j: u32|
                        j < 32 ==> (final(self).spec_occupied(j) <==> (j == idx || old(
                            self,
                        ).spec_occupied(j)))
                },
                Err(e) => {
                    &&& e == element
                    &&& forall|j: u32| j < 32 ==> old(self).spec_occupied(j)
                    &&& *final(self) == *old(self)
                },
            },
    {
        match self.bv.find_first_zero() {
            Ok(idx) => {
                self.bv.set(idx);
                self.list.set(idx, Some(element));
                proof {
                    assert forall|i: u32|
                        i < 32 implies (self.spec_bv().spec_check(i) <==> self.spec_slots()[i as int] is Some) by {
                        assert(old(self).spec_bv().spec_check(i) <==> old(self).spec_slots()[i as int] is Some);
                        assert(self.spec_bv().spec_check(i) <==> (i == idx || old(self).spec_bv().spec_check(i)));
                    }
                }
                Ok(idx)
            },
            Err(()) => Err(element),
        }
    }

    /// Inserts a value at an explicit slot if that slot is free, or hands the
    /// value back.
    pub fn insert_at(&mut self, idx: usize, element: U) -> (r: Result<usize, U>)
        requires
            old(self).wf(),
        ensures
            final(self).wf(),
            match r {
                Ok(i) => {
                    &&& i == idx
                    &&& idx < 32
                    &&& !old(self).spec_occupied(idx as u32)
                    &&& final(self).spec_slots() == old(self).spec_slots().update(
                        idx as int,
                        Some(element),
                    )
                    &&& forall|j: u32|
                        j < 32 ==> (final(self).spec_occupied(j) <==> (j == idx || old(
                            self,
                        ).spec_occupied(j)))
                },
                Err(e) => {
                    &&& e == element
                    &&& (idx >= 32 || old(self).spec_occupied(idx as u32))
                    &&& *final(self) == *old(self)
                },
            },
    {
        if idx < 32 && !self.bv.check(idx) {
            self.bv.set(idx);
            self.list.set(idx, Some(element));
            proof {
                assert forall|i: u32|
                    i < 32 implies (self.spec_bv().spec_check(i) <==> self.spec_slots()[i as int] is Some) by {
                    assert(old(self).spec_bv().spec_check(i) <==> old(self).spec_slots()[i as int] is Some);
                    assert(self.spec_bv().spec_check(i) <==> (i == idx || old(self).spec_bv().spec_check(i)));
                }
            }
            Ok(idx)
        } else {
            Err(element)
        }
    }

    /// Reads the value in an occupied slot.
    pub fn get(&self, idx: usize) -> (r: Result<&U, ()>)
        requires
            self.wf(),
            idx < 32,
        ensures
            match r {
                Ok(v) => self.spec_occupied(idx as u32) && self.spec_get(idx as u32) == Some(*v),
                Err(()) => !self.spec_occupied(idx as u32),
            },
    {
        if self.bv.check(idx) {
            match &self.list[idx] {
                Some(v) => Ok(v),
                None => Err(()),
            }
        } else {
            Err(())
        }
    }

    /// Opens an occupied slot's value for mutation; refuses a vacant slot.
    /// Occupancy is untouched, and the slot afterwards holds whatever the
    /// caller left behind the returned borrow.
    pub fn get_mut(&mut self, idx: usize) -> (r: Result<&mut U, ()>)
        requires
            old(self).wf(),
            idx < 32,
        ensures
            old(self).spec_occupied(idx as u32) ==> {
                &&& r is Ok
                &&& *r->Ok_0 == old(self).spec_get(idx as u32)->0
                &&& final(self).spec_slots() == old(self).spec_slots().update(
                    idx as int,
                    Some(*final(r->Ok_0)),
                )
                &&& final(self).spec_bv() == old(self).spec_bv()
                &&& final(self).wf()
            },
            !old(self).spec_occupied(idx as u32) ==> r is Err && *final(self) == *old(self),
    {
        if !self.bv.check(idx) {
            return Err(());
        }
        proof {
            assert(old(self).spec_bv().spec_check(idx as u32) <==> old(self).spec_slots()[idx as int] is Some);
        }
        let slot = &mut self.list[idx];
        match slot.as_mut() {
            Some(m) => Ok(m),
            None => Err(()),
        }
    }

    /// Vacates an occupied slot and returns its value.
    pub fn remove(&mut self, idx: usize) -> (r: Result<U, ()>)
        requires
            old(self).wf(),
            idx < 32,
        ensures
            final(self).wf(),
            match r {
                Ok(v) => {
                    &&& old(self).spec_get(idx as u32) == Some(v)
                    &&& final(self).spec_slots() == old(self).spec_slots().update(idx as int, None)
                    &&& forall|j: u32|
                        j < 32 ==> (final(self).spec_occupied(j) <==> (j != idx && old(
                            self,
                        ).spec_occupied(j)))
                },
                Err(()) => !old(self).spec_occupied(idx as u32) && *final(self) == *old(self),
            },
    {
        if !self.bv.check(idx) {
            return Err(());
        }
        self.bv.clear(idx);
        let v = self.list.remove(idx);
        self.list.insert(idx, None);
        proof {
            assert(self.spec_slots() =~= old(self).spec_slots().update(idx as int, None));
            assert forall|i: u32|
                i < 32 implies (self.spec_bv().spec_check(i) <==> self.spec_slots()[i as int] is Some) by {
                assert(old(self).spec_bv().spec_check(i) <==> old(self).spec_slots()[i as int] is Some);
                assert(self.spec_bv().spec_check(i) <==> (i != idx && old(self).spec_bv().spec_check(i)));
            }
            assert(old(self).spec_bv().spec_check(idx as u32) <==> old(self).spec_slots()[idx as int] is Some);
            assert(old(self).spec_get(idx as u32) == v);
            assert(v is Some);
        }
        match v {
            Some(u) => Ok(u),
            None => Err(()),
        }
    }

    /// Whether some slot is occupied in both lists; used before a fuse to see
    /// if elements would be lost.
    pub fn intersects(&self, rhs: &BitList<U>) -> (r: bool)
        ensures
            r == exists|j: u32|
                j < 32 && self.spec_occupied(j) && rhs.spec_occupied(j),
    {
        let r = self.bv.intersects(&rhs.bv);
        proof {
            if r {
                let w = choose|j: u32|
                    j < 32 && self.spec_bv().spec_check(j) && rhs.spec_bv().spec_check(j);
                assert(w < 32 && self.spec_occupied(w) && rhs.spec_occupied(w));
            } else {
                assert forall|j: u32|
                    j < 32 implies !(self.spec_occupied(j) && rhs.spec_occupied(j)) by {
                    assert(!(self.spec_bv().spec_check(j) && rhs.spec_bv().spec_check(j)));
                }
            }
        }
        r
    }

    /// The slots of `cur` at and above `i` are those of `prev` fused with
    /// `other`, and below `i` they are untouched.
    spec fn fused_above(prev: BitList<U>, cur: BitList<U>, other: BitList<U>, i: int) -> bool {
        &&& forall|j: u32|
            j < i ==> cur.spec_occupied(j) == prev.spec_occupied(j) && cur.spec_get(j)
                == prev.spec_get(j)
        &&& forall|j: u32|
            i <= j < 32 ==> (cur.spec_occupied(j) <==> (prev.spec_occupied(j)
                || other.spec_occupied(j)))
        &&& forall|j: u32|
            i <= j < 32 ==> cur.spec_get(j) == if !prev.spec_occupied(j) && other.spec_occupied(
                j,
            ) {
                other.spec_get(j)
            } else {
                prev.spec_get(j)
            }
    }

    /// Fuses two lists, keeping `self`'s element wherever both are occupied.
    /// Returns the number of elements of `rhs` that were wasted that way.
    pub fn fuse(&mut self, rhs: BitList<U>) -> (r: usize)
        requires
            old(self).wf(),
            rhs.wf(),
        ensures
            final(self).wf(),
            forall|j: u32|
                j < 32 ==> (final(self).spec_occupied(j) <==> (old(self).spec_occupied(j)
                    || rhs.spec_occupied(j))),
            forall|j: u32|
                j < 32 ==> final(self).spec_get(j) == if !old(self).spec_occupied(j)
                    && rhs.spec_occupied(j) {
                    rhs.spec_get(j)
                } else {
                    old(self).spec_get(j)
                },
            r == count_bits_below(old(self).spec_bv().spec_raw() & rhs.spec_bv().spec_raw(), 32),
            r <= 32,
    {
        proof {
            lemma_count_bits_below_bound(
                old(self).spec_bv().spec_raw() & rhs.spec_bv().spec_raw(),
                32,
            );
        }
        let ghost overlap: u32 = self.spec_bv().spec_raw() & rhs.spec_bv().spec_raw();
        let ghost rhs0 = rhs;
        let BitList { bv: _rbv, list: mut rlist } = rhs;
        let mut wasted: usize = 0;
        let mut i: usize = 32;
        while i > 0
            invariant
                i <= 32,
                self.wf(),
                overlap == old(self).spec_bv().spec_raw() & rhs0.spec_bv().spec_raw(),
                rhs0.wf(),
                rlist@ == rhs0.spec_slots().subrange(0, i as int),
                wasted + count_bits_below(overlap, i as nat) == count_bits_below(overlap, 32),
                wasted <= 32,
                BitList::fused_above(*old(self), *self, rhs0, i as int),
            decreases i,
        {
            broadcast use group_bitmap_lemmas;

            proof {
                assert forall|j: u32|
                    i <= j < 32 implies (self.spec_occupied(j) <==> (old(self).spec_occupied(j)
                        || rhs0.spec_occupied(j))) by {}
                lemma_count_bits_below_bound(overlap, 32);
                lemma_count_bits_below_bound(overlap, (i - 1) as nat);
                assert(count_bits_below(overlap, i as nat) == count_bits_below(
                    overlap,
                    (i - 1) as nat,
                ) + if nth_bit(overlap, (i - 1) as u32) {
                    1nat
                } else {
                    0nat
                });
            }
            i = i - 1;
            let ghost prev = *self;
            let slot = rlist.pop();
            proof {
                assert(slot == Some(rhs0.spec_slots()[i as int]));
                assert(rhs0.spec_occupied(i as u32) <==> rhs0.spec_slots()[i as int] is Some);
                assert(nth_bit(overlap, i as u32) <==> (old(self).spec_occupied(i as u32)
                    && rhs0.spec_occupied(i as u32)));
                assert(prev.spec_occupied(i as u32) == old(self).spec_occupied(i as u32));
                assert(prev.spec_get(i as u32) == old(self).spec_get(i as u32));
            }
            if let Some(Some(v)) = slot {
                if self.bv.check(i) {
                    wasted = wasted + 1;
                } else {
                    self.bv.set(i);
                    self.list.set(i, Some(v));
                }
            }
            proof {
                assert(rlist@ =~= rhs0.spec_slots().subrange(0, i as int));
                assert forall|j: u32|
                    j < 32 implies (self.spec_bv().spec_check(j) <==> self.spec_slots()[j as int]
                    is Some) by {
                    assert(prev.spec_bv().spec_check(j) <==> prev.spec_slots()[j as int] is Some);
                }
                assert forall|j: u32|
                    j < i implies self.spec_occupied(j) == old(self).spec_occupied(j)
                    && self.spec_get(j) == old(self).spec_get(j) by {
                    assert(prev.spec_occupied(j) == old(self).spec_occupied(j));
                    assert(prev.spec_get(j) == old(self).spec_get(j));
                }
                assert forall|j: u32|
                    i <= j < 32 implies (self.spec_occupied(j) <==> (old(self).spec_occupied(j)
                        || rhs0.spec_occupied(j))) by {
                    if j > i {
                        assert(nth_bit(prev.spec_bv().spec_raw(), j) <==> (nth_bit(
                            old(self).spec_bv().spec_raw(),
                            j,
                        ) || nth_bit(rhs0.spec_bv().spec_raw(), j)));
                    }
                }
                assert forall|j: u32|
                    i <= j < 32 implies self.spec_get(j) == (if !old(self).spec_occupied(j)
                        && rhs0.spec_occupied(j) {
                        rhs0.spec_get(j)
                    } else {
                        old(self).spec_get(j)
                    }) by {
                    if j > i {
                        assert(prev.spec_slots()[j as int] == if !nth_bit(
                            old(self).spec_bv().spec_raw(),
                            j,
                        ) && nth_bit(rhs0.spec_bv().spec_raw(), j) {
                            rhs0.spec_slots()[j as int]
                        } else {
                            old(self).spec_slots()[j as int]
                        });
                    } else {
                        assert(prev.spec_occupied(j) == old(self).spec_occupied(j));
                        assert(prev.spec_get(j) == old(self).spec_get(j));
                    }
                }
                assert(BitList::fused_above(*old(self), *self, rhs0, i as int));
            }
        }
        proof {
            assert(BitList::fused_above(*old(self), *self, rhs0, 0));
            assert(rhs0 == rhs);
        }
        wasted
    }

    /// Whether a slot is occupied.
    pub fn is_occupied(&self, idx: usize) -> (r: bool)
        requires
            idx < 32,
        ensures
            r == self.spec_occupied(idx as u32),
    {
        self.bv.check(idx)
    }

    /// The lowest free slot, or a refusal when every slot is taken.
    pub fn first_free(&self) -> (r: Result<usize, ()>)
        ensures
            match r {
                Ok(i) => i < 32 && !self.spec_occupied(i as u32) && forall|j: u32|
                    j < i ==> self.spec_occupied(j),
                Err(()) => forall|j: u32| j < 32 ==> self.spec_occupied(j),
            },
    {
        self.bv.find_first_zero()
    }

    /// The occupied slots, highest first: the order the slot-table iteration
    /// visits them in.  Each listed index can then be read with `get`.
    pub fn occupied_slots(&self) -> (r: Vec<usize>)
        ensures
            r@ == bits_desc_from(self.spec_bv().spec_raw(), 0),
            forall|k: int|
                0 <= k < r@.len() ==> (#[trigger] r@[k]) < 32 && self.spec_occupied(
                    r@[k] as u32,
                ),
    {
        proof {
            lemma_bits_desc_elements(self.spec_bv().spec_raw(), 0);
        }
        self.bv.set_bits_descending()
    }

    /// Number of free slots.
    pub fn space_left(&self) -> (r: usize)
        ensures
            r + self.spec_bv().spec_count() == 32,
    {
        self.bv.count_zeroes()
    }

    /// Number of occupied slots.
    pub fn space_used(&self) -> (r: usize)
        ensures
            r == self.spec_bv().spec_count(),
    {
        self.bv.count_ones()
    }

    /// Total number of slots.
    pub fn size(&self) -> (r: usize)
        ensures
            r == 32,
    {
        BitList::<U>::SIZE
    }
}

/// The bitmap used by wait sets that interrupt handlers may touch on the
/// target hardware, where atomic read-modify-write supplies the safety.
/// Here every mutation is an exclusive borrow under the critical-section
/// discipline, so the word itself is plain.
#[derive(Debug, Clone, Copy, PartialEq, Eq, Structural)]
pub struct AtomicBitVec {
    bits: BitVec,
}

impl AtomicBitVec {
    /// Number of bits held by the vector.
    pub const BITS: usize = 32;

    /// Highest bit index, counting from zero.
    pub const HIGHEST_BIT: usize = 31;

    /// Mask of all ones.
    pub const MASK: u32 = 0xffff_ffff;

    /// The plain bitmap behind the atomic view.
    pub closed spec fn spec_bits(self) -> BitVec {
        self.bits
    }

    /// The raw word behind the bitmap.
    #[verifier::inline]
    pub open spec fn spec_raw(self) -> u32 {
        self.spec_bits().spec_raw()
    }

    /// Whether slot `i` is set.
    #[verifier::inline]
    pub open spec fn spec_check(self, i: u32) -> bool {
        self.spec_bits().spec_check(i)
    }

    /// The number of set slots.
    #[verifier::inline]
    pub open spec fn spec_count(self) -> nat {
        self.spec_bits().spec_count()
    }

    /// Whether no slot is set.
    #[verifier::inline]
    pub open spec fn spec_is_empty(self) -> bool {
        self.spec_bits().spec_is_empty()
    }

    /// Whether every slot is set.
    #[verifier::inline]
    pub open spec fn spec_is_full(self) -> bool {
        self.spec_bits().spec_is_full()
    }

    /// Whether every slot set in `pattern` is also set in `self`.
    #[verifier::inline]
    pub open spec fn spec_superset_of(self, pattern: AtomicBitVec) -> bool {
        self.spec_bits().spec_superset_of(pattern.spec_bits())
    }

    /// The highest set slot, or -1 when the vector is empty.
    #[verifier::inline]
    pub open spec fn spec_highest(self) -> int {
        self.spec_bits().spec_highest()
    }

    /// Create a new, empty vector.
    pub fn new() -> (r: AtomicBitVec)
        ensures
            r.spec_raw() == 0u32,
            r.spec_is_empty(),
    {
        AtomicBitVec { bits: BitVec::new() }
    }

    /// Create a vector holding the given word.
    pub fn init(vec: u32) -> (r: AtomicBitVec)
        ensures
            r.spec_raw() == vec,
    {
        AtomicBitVec { bits: BitVec::init(vec) }
    }

    /// Overwrites the whole word.
    pub fn write_raw(&mut self, val: u32)
        ensures
            final(self).spec_raw() == val,
    {
        self.bits = BitVec::init(val);
    }

    /// Sets a single bit in the vector.
    pub fn set(&mut self, bit: usize)
        requires
            bit < 32,
        ensures
            final(self).spec_raw() == (old(self).spec_raw() | (1u32 << bit as u32)),
            forall|j: u32|
                j < 32 ==> (final(self).spec_check(j) <==> (j == bit || old(self).spec_check(j))),
    {
        self.bits.set(bit);
    }

    /// Clears a single bit in the vector.
    pub fn clear(&mut self, bit: usize)
        requires
            bit < 32,
        ensures
            final(self).spec_raw() == (old(self).spec_raw() & !(1u32 << bit as u32)),
            forall|j: u32|
                j < 32 ==> (final(self).spec_check(j) <==> (j != bit && old(self).spec_check(j))),
    {
        self.bits.clear(bit);
    }

    /// Toggles a single bit in the vector.
    pub fn toggle(&mut self, bit: usize)
        requires
            bit < 32,
        ensures
            forall|j: u32|
                j < 32 ==> (final(self).spec_check(j) <==> (old(self).spec_check(j) != (j
                    == bit))),
    {
        self.bits.toggle(bit);
    }

    /// Sets the lowest clear bit, if any.
    pub fn set_first_zero(&mut self)
        ensures
            old(self).spec_is_full() ==> *final(self) == *old(self),
            !old(self).spec_is_full() ==> exists|z: u32|
                z < 32 && !old(self).spec_check(z) && (forall|j: u32|
                    j < z ==> old(self).spec_check(j)) && (forall|j: u32|
                    j < 32 ==> (final(self).spec_check(j) <==> (j == z || old(
                        self,
                    ).spec_check(j)))),
    {
        self.bits.set_first_zero();
    }

    /// Clears the lowest set bit, if any.
    pub fn clear_first_one(&mut self)
        ensures
            old(self).spec_is_empty() ==> *final(self) == *old(self),
            !old(self).spec_is_empty() ==> exists|z: u32|
                z < 32 && old(self).spec_check(z) && (forall|j: u32|
                    j < z ==> !old(self).spec_check(j)) && (forall|j: u32|
                    j < 32 ==> (final(self).spec_check(j) <==> (j != z && old(
                        self,
                    ).spec_check(j)))),
    {
        self.bits.clear_first_one();
    }

    /// Checks if a bit is set.
    pub fn check(&self, bit: usize) -> (r: bool)
        requires
            bit < 32,
        ensures
            r == self.spec_check(bit as u32),
    {
        self.bits.check(bit)
    }

    /// Get vector as raw number.
    pub fn raw(&self) -> (r: u32)
        ensures
            r == self.spec_raw(),
    {
        self.bits.raw()
    }

    /// Create a copy with reversed bit order.
    pub fn reverse(&self) -> (r: AtomicBitVec)
        ensures
            forall|j: u32| j < 32 ==> (r.spec_check(j) <==> self.spec_check((31 - j) as u32)),
    {
        AtomicBitVec { bits: self.bits.reverse() }
    }

    /// Sets vector to zero.
    pub fn reset(&mut self)
        ensures
            final(self).spec_raw() == 0u32,
            final(self).spec_is_empty(),
    {
        self.bits.reset();
    }

    /// Inverts (toggles) all bits in vector.
    pub fn invert(&mut self)
        ensures
            forall|j: u32| j < 32 ==> (final(self).spec_check(j) <==> !old(self).spec_check(j)),
    {
        self.bits.invert();
    }

    /// Bitand operation.
    pub fn and(&mut self, rhs: &AtomicBitVec)
        ensures
            forall|j: u32|
                j < 32 ==> (final(self).spec_check(j) <==> (old(self).spec_check(j)
                    && rhs.spec_check(j))),
    {
        let r = rhs.bits;
        self.bits.and(&r);
        proof {
            broadcast use group_bitmap_lemmas;

            assert forall|j: u32|
                j < 32 implies (self.spec_check(j) <==> (old(self).spec_check(j)
                    && rhs.spec_check(j))) by {
                assert(self.bits.spec_check(j) <==> (old(self).bits.spec_check(j)
                    && r.spec_check(j)));
            }
        }
    }

    /// Bitand with a raw word.
    pub fn and_raw(&mut self, rhs: u32)
        ensures
            forall|j: u32|
                j < 32 ==> (final(self).spec_check(j) <==> (old(self).spec_check(j) && nth_bit(
                    rhs,
                    j,
                ))),
    {
        let r = BitVec::init(rhs);
        self.bits.and(&r);
        proof {
            broadcast use group_bitmap_lemmas;

            assert forall|j: u32|
                j < 32 implies (self.spec_check(j) <==> (old(self).spec_check(j) && nth_bit(
                    rhs,
                    j,
                ))) by {
                assert(self.bits.spec_check(j) <==> (old(self).bits.spec_check(j)
                    && r.spec_check(j)));
            }
        }
    }

    /// Bitor operation.
    pub fn or(&mut self, rhs: &AtomicBitVec)
        ensures
            forall|j: u32|
                j < 32 ==> (final(self).spec_check(j) <==> (old(self).spec_check(j)
                    || rhs.spec_check(j))),
    {
        let r = rhs.bits;
        self.bits.or(&r);
        proof {
            broadcast use group_bitmap_lemmas;

            assert forall|j: u32|
                j < 32 implies (self.spec_check(j) <==> (old(self).spec_check(j)
                    || rhs.spec_check(j))) by {
                assert(self.bits.spec_check(j) <==> (old(self).bits.spec_check(j)
                    || r.spec_check(j)));
            }
        }
    }

    /// Bitor with a raw word.
    pub fn or_raw(&mut self, rhs: u32)
        ensures
            forall|j: u32|
                j < 32 ==> (final(self).spec_check(j) <==> (old(self).spec_check(j) || nth_bit(
                    rhs,
                    j,
                ))),
    {
        let r = BitVec::init(rhs);
        self.bits.or(&r);
        proof {
            broadcast use group_bitmap_lemmas;

            assert forall|j: u32|
                j < 32 implies (self.spec_check(j) <==> (old(self).spec_check(j) || nth_bit(
                    rhs,
                    j,
                ))) by {
                assert(self.bits.spec_check(j) <==> (old(self).bits.spec_check(j)
                    || r.spec_check(j)));
            }
        }
    }

    /// Bitxor operation.
    pub fn xor(&mut self, rhs: &AtomicBitVec)
        ensures
            forall|j: u32|
                j < 32 ==> (final(self).spec_check(j) <==> (old(self).spec_check(j)
                    != rhs.spec_check(j))),
    {
        let r = rhs.bits;
        self.bits.xor(&r);
    }

    /// Bitxor with a raw word.
    pub fn xor_raw(&mut self, rhs: u32)
        ensures
            forall|j: u32|
                j < 32 ==> (final(self).spec_check(j) <==> (old(self).spec_check(j) != nth_bit(
                    rhs,
                    j,
                ))),
    {
        let r = BitVec::init(rhs);
        self.bits.xor(&r);
    }

    /// Returns the bits in `pattern` that are not active in `self`.
    pub fn difference(&self, pattern: &AtomicBitVec) -> (r: AtomicBitVec)
        ensures
            forall|j: u32|
                j < 32 ==> (r.spec_check(j) <==> (pattern.spec_check(j) && !self.spec_check(j))),
    {
        AtomicBitVec { bits: self.bits.difference(&pattern.bits) }
    }

    /// Returns true if there is one or more bits set.
    pub fn is_populated(&self) -> (r: bool)
        ensures
            r == !self.spec_is_empty(),
    {
        self.bits.is_populated()
    }

    /// Returns true if vector is empty.
    pub fn is_empty(&self) -> (r: bool)
        ensures
            r == self.spec_is_empty(),
    {
        self.bits.is_empty()
    }

    /// Checks if vector contains at least one of pattern's bits.
    pub fn intersects(&self, pattern: &AtomicBitVec) -> (r: bool)
        ensures
            r == exists|j: u32| j < 32 && self.spec_check(j) && pattern.spec_check(j),
    {
        let r = self.bits.intersects(&pattern.bits);
        proof {
            if r {
                let w = choose|j: u32|
                    j < 32 && self.bits.spec_check(j) && pattern.bits.spec_check(j);
                assert(w < 32 && self.spec_check(w) && pattern.spec_check(w));
            } else {
                assert forall|j: u32|
                    j < 32 implies !(self.spec_check(j) && pattern.spec_check(j)) by {
                    assert(!(self.bits.spec_check(j) && pattern.bits.spec_check(j)));
                }
            }
        }
        r
    }

    /// Checks if the whole pattern is contained in `self`.
    pub fn superset_of(&self, pattern: &AtomicBitVec) -> (r: bool)
        ensures
            r == self.spec_superset_of(*pattern),
    {
        self.bits.superset_of(&pattern.bits)
    }

    /// Counts the set bits of the vector.
    pub fn count_ones(&self) -> (r: usize)
        ensures
            r == self.spec_count(),
            r <= 32,
    {
        self.bits.count_ones()
    }

    /// Counts the clear bits of the vector.
    pub fn count_zeroes(&self) -> (r: usize)
        ensures
            r + self.spec_count() == 32,
    {
        self.bits.count_zeroes()
    }

    /// Returns the index of the highest set bit, or refuses on an empty vector.
    pub fn find_highest_set(&self) -> (r: Result<usize, ()>)
        ensures
            match r {
                Ok(i) => i < 32 && i == self.spec_highest() && self.spec_check(i as u32)
                    && forall|j: u32| i < j < 32 ==> !self.spec_check(j),
                Err(()) => self.spec_is_empty() && self.spec_highest() == -1,
            },
    {
        self.bits.find_highest_set()
    }

    /// Returns the index of the lowest set bit, or refuses on an empty vector.
    pub fn find_first_set(&self) -> (r: Result<usize, ()>)
        ensures
            match r {
                Ok(i) => i < 32 && self.spec_check(i as u32) && forall|j: u32|
                    j < i ==> !self.spec_check(j),
                Err(()) => self.spec_is_empty(),
            },
    {
        self.bits.find_first_set()
    }

    /// Returns the index of the lowest clear bit, or refuses on a full vector.
    pub fn find_first_zero(&self) -> (r: Result<usize, ()>)
        ensures
            match r {
                Ok(i) => i < 32 && !self.spec_check(i as u32) && forall|j: u32|
                    j < i ==> self.spec_check(j),
                Err(()) => self.spec_is_full(),
            },
    {
        self.bits.find_first_zero()
    }
}

} // verus!
