//! Bit-group helpers shared by the digital phasors.
//!
//! A symbol is a group of bits with `bits[0]` most significant; its integer
//! value is `sum (bits[i] & 1) << (len - 1 - i)`.

use vstd::prelude::*;

verus! {

use vstd::arithmetic::power2::{pow2, lemma_pow2_unfold, lemma_pow2_adds, lemma2_to64};

/// Integer value of a bit group, most-significant bit first.
pub open spec fn symbol_value(s: Seq<u8>) -> nat
    decreases s.len(),
{
    if s.len() == 0 {
        0
    } else {
        (symbol_value(s.drop_last()) * 2 + (s.last() & 1)) as nat
    }
}

/// The same value written as the positional sum of the tail starting at `i`:
/// `sum_{j >= i} (s[j] & 1) * 2^(len - 1 - j)`.
pub open spec fn shift_sum(s: Seq<u8>, i: int) -> nat
    decreases s.len() - i,
{
    if 0 <= i < s.len() {
        ((s[i] & 1) * pow2((s.len() - 1 - i) as nat) + shift_sum(s, i + 1)) as nat
    } else {
        0
    }
}

proof fn lemma_shift_sum_push(s: Seq<u8>, t: Seq<u8>, b: u8, i: int)
    requires
        s == t.push(b),
        0 <= i <= t.len(),
    ensures
        shift_sum(s, i) == 2 * shift_sum(t, i) + (b & 1),
    decreases t.len() - i,
{
    if i == t.len() {
        assert(s.len() == t.len() + 1);
        assert(s[i] == b);
        assert(shift_sum(s, i + 1) == 0);
        assert(shift_sum(t, i) == 0);
        assert(pow2(0) == 1) by { lemma2_to64(); }
        assert(shift_sum(s, i) == (b & 1) * pow2(0));
    } else {
        lemma_shift_sum_push(s, t, b, i + 1);
        assert(s[i] == t[i]);
        let w: nat = (t.len() - 1 - i) as nat;
        assert(pow2(w + 1) == 2 * pow2(w)) by {
            lemma_pow2_adds(w, 1);
            lemma2_to64();
        }
        assert((s[i] & 1) * pow2((s.len() - 1 - i) as nat) == 2 * ((t[i] & 1) * pow2(w))) by (nonlinear_arith)
            requires
                s[i] == t[i],
                pow2((s.len() - 1 - i) as nat) == 2 * pow2(w),
        ;
    }
}

/// The value of a bit group equals the positional sum
/// `sum (bits[i] & 1) * 2^(len - 1 - i)`.
pub proof fn lemma_symbol_value_is_shift_sum(s: Seq<u8>)
    ensures
        symbol_value(s) == shift_sum(s, 0),
    decreases s.len(),
{
    if s.len() > 0 {
        let t = s.drop_last();
        lemma_symbol_value_is_shift_sum(t);
        assert(s =~= t.push(s.last()));
        lemma_shift_sum_push(s, t, s.last(), 0);
    }
}

/// A group of `n` bits encodes a value below `2^n`.
pub proof fn lemma_symbol_value_bound(s: Seq<u8>)
    ensures
        symbol_value(s) < pow2(s.len()),
    decreases s.len(),
{
    if s.len() == 0 {
        assert(pow2(0) == 1) by { lemma2_to64(); }
    } else {
        lemma_symbol_value_bound(s.drop_last());
        lemma_pow2_unfold(s.len());
        let x: u8 = s.last();
        assert(x & 1 <= 1) by (bit_vector);
    }
}

/// Pack a group of bits (most-significant first) into its symbol value.
pub fn bytes_to_bits(bytes: &[u8]) -> (r: u8)
    requires
        1 <= bytes@.len() <= 8,
    ensures
        r == symbol_value(bytes@),
{
    let len: usize = bytes.len();
    let mut acc: u8 = 0;
    let mut i: usize = 0;
    proof {
        assert(bytes@.take(0) =~= Seq::<u8>::empty());
        assert(pow2(0) == 1) by { lemma2_to64(); }
    }
    while i < len
        invariant
            len == bytes@.len(),
            1 <= len <= 8,
            0 <= i <= len,
            acc == symbol_value(bytes@.take(i as int)),
            acc < pow2(i as nat),
        decreases len - i,
    {
        let raw: u8 = bytes[i];
        let b: u8 = raw & 1;
        proof {
            assert(raw & 1 <= 1) by (bit_vector);
            assert(bytes@.take(i + 1).drop_last() =~= bytes@.take(i as int));
            assert(bytes@.take(i + 1).last() == bytes@[i as int]);
            lemma_pow2_unfold((i + 1) as nat);
            assert(pow2(i as nat) <= pow2(7)) by {
                if i < 7 {
                    vstd::arithmetic::power2::lemma_pow2_strictly_increases(i as nat, 7);
                }
            }
            assert(pow2(7) == 128) by { lemma2_to64(); }
        }
        acc = acc * 2 + b;
        i = i + 1;
    }
    proof {
        assert(bytes@.take(len as int) =~= bytes@);
    }
    acc
}

/// Largest symbol value that fits in the given number of bits: `2^k - 1`.
pub fn max_symbol(bits_per_symbol: usize) -> (r: usize)
    requires
        bits_per_symbol < usize::BITS,
    ensures
        r == pow2(bits_per_symbol as nat) - 1,
{
    proof {
        vstd::bits::lemma_usize_pow2_no_overflow(bits_per_symbol as nat);
        vstd::bits::lemma_usize_shl_is_mul(1, bits_per_symbol);
        vstd::arithmetic::power2::lemma_pow2_pos(bits_per_symbol as nat);
    }
    (1usize << bits_per_symbol) - 1
}

/// Copy the half-open range `start..end` of a byte slice into a fresh vector.
pub fn copy_range(v: &[u8], start: usize, end: usize) -> (r: Vec<u8>)
    requires
        start <= end <= v@.len(),
    ensures
        r@ == v@.subrange(start as int, end as int),
{
    let mut r: Vec<u8> = Vec::new();
    let mut i: usize = start;
    proof {
        assert(r@ =~= v@.subrange(start as int, start as int));
    }
    while i < end
        invariant
            start <= i <= end <= v@.len(),
            r@ == v@.subrange(start as int, i as int),
        decreases end - i,
    {
        r.push(v[i]);
        i = i + 1;
        proof {
            assert(r@ =~= v@.subrange(start as int, i as int));
        }
    }
    r
}

/// Every entry of the group is an actual bit (0 or 1).
pub open spec fn is_bits(s: Seq<u8>) -> bool {
    forall|i: int| 0 <= i < s.len() ==> #[trigger] s[i] <= 1
}

/// Map a bit to its antipodal sign: `2 * b - 1`.
pub fn bit_to_sign(b: u8) -> (r: i32)
    ensures
        r == 2 * (b as int) - 1,
{
    2 * (b as i32) - 1
}

} // verus!
