//! Address blocks: the addresses that share their leading bits.

use vstd::prelude::*;
use vstd::arithmetic::div_mod::{lemma_fundamental_div_mod, lemma_mod_multiples_basic};
use vstd::arithmetic::mul::lemma_mul_is_commutative;
use vstd::arithmetic::power2::{lemma2_to64, lemma_pow2_pos, lemma_pow2_unfold, pow2};
use vstd::bits::{lemma_u128_shr_is_div, lemma_u32_shl_is_mul, lemma_u32_shr_is_div};

verus! {

/// The number of trailing bits that a prefix of `prefix` bits leaves free in
/// an address of `width` bits. A prefix longer than the address leaves none.
pub open spec fn host_bits(width: nat, prefix: nat) -> nat {
    if prefix >= width {
        0
    } else {
        (width - prefix) as nat
    }
}

/// The number of addresses in one block.
pub open spec fn block_size(width: nat, prefix: nat) -> nat {
    pow2(host_bits(width, prefix))
}

/// The first address of the block that `value` lies in: `value` with its
/// free bits cleared.
pub open spec fn block_base(value: nat, width: nat, prefix: nat) -> nat {
    (value / block_size(width, prefix)) * block_size(width, prefix)
}

/// The last address of the block that `value` lies in: `value` with its
/// free bits set.
pub open spec fn block_last(value: nat, width: nat, prefix: nat) -> nat {
    (block_base(value, width, prefix) + block_size(width, prefix) - 1) as nat
}

/// Whether `a` and `b` agree on their leading `prefix` bits.
pub open spec fn same_block(a: nat, b: nat, width: nat, prefix: nat) -> bool {
    a / block_size(width, prefix) == b / block_size(width, prefix)
}

/// The mask that keeps the leading `prefix` bits of an address of `width`
/// bits, as a number.
pub open spec fn mask_value(width: nat, prefix: nat) -> nat {
    (pow2(width) - block_size(width, prefix)) as nat
}

/// The base of a block is a multiple of the block's size and lies in the
/// block of the value; the value lies from the base to the last address.
pub proof fn lemma_block_base(value: nat, width: nat, prefix: nat)
    ensures
        block_size(width, prefix) > 0,
        block_base(value, width, prefix) % block_size(width, prefix) == 0,
        block_base(value, width, prefix) <= value <= block_last(value, width, prefix),
        block_base(value, width, prefix) == value - value % block_size(width, prefix),
        same_block(block_base(value, width, prefix), value, width, prefix),
{
    let b = block_size(width, prefix) as int;
    let q = value as int / b;
    lemma_pow2_pos(host_bits(width, prefix));
    lemma_fundamental_div_mod(value as int, b);
    lemma_mul_is_commutative(b, q);
    lemma_mod_multiples_basic(q, b);
    vstd::arithmetic::div_mod::lemma_div_multiples_vanish(q, b);
}

/// The base of a block is its own base, and a value without a free bit
/// set is the base of its block.
pub proof fn lemma_base_of_base(value: nat, width: nat, prefix: nat)
    ensures
        block_base(block_base(value, width, prefix), width, prefix) == block_base(
            value,
            width,
            prefix,
        ),
        value % block_size(width, prefix) == 0 ==> block_base(value, width, prefix) == value,
{
    lemma_block_base(value, width, prefix);
    lemma_block_base(block_base(value, width, prefix), width, prefix);
}

/// Two values lie in one block exactly when their bases are equal.
pub proof fn lemma_same_block_by_base(a: nat, b: nat, width: nat, prefix: nat)
    ensures
        same_block(a, b, width, prefix) <==> block_base(a, width, prefix) == block_base(
            b,
            width,
            prefix,
        ),
{
    lemma_block_base(a, width, prefix);
    lemma_block_base(b, width, prefix);
    let s = block_size(width, prefix) as int;
    vstd::arithmetic::div_mod::lemma_div_multiples_vanish(a as int / s, s);
    vstd::arithmetic::div_mod::lemma_div_multiples_vanish(b as int / s, s);
}

/// Two values lie in one block exactly when one lies between the other's
/// base and last address.
pub proof fn lemma_same_block_by_range(a: nat, b: nat, width: nat, prefix: nat)
    ensures
        same_block(a, b, width, prefix) <==> block_base(a, width, prefix) <= b <= block_last(
            a,
            width,
            prefix,
        ),
{
    lemma_block_base(a, width, prefix);
    lemma_block_base(b, width, prefix);
    let s = block_size(width, prefix) as int;
    let qa = a as int / s;
    let qb = b as int / s;
    lemma_fundamental_div_mod(b as int, s);
    lemma_mul_is_commutative(s, qb);
    lemma_mul_is_commutative(s, qa);
    if qa != qb {
        if qa < qb {
            assert(qa + 1 <= qb);
            vstd::arithmetic::mul::lemma_mul_inequality(qa + 1, qb, s);
            vstd::arithmetic::mul::lemma_mul_is_distributive_add_other_way(s, qa, 1);
        } else {
            assert(qb + 1 <= qa);
            vstd::arithmetic::mul::lemma_mul_inequality(qb + 1, qa, s);
            vstd::arithmetic::mul::lemma_mul_is_distributive_add_other_way(s, qb, 1);
        }
    }
}

/// The mask that keeps the leading `prefix_len` bits of an IPv4 address:
/// all zero for a prefix of 0, all one for a prefix of 32 or more.
pub fn mask_v4(prefix_len: u8) -> (mask: u32)
    ensures
        mask == mask_value(32, prefix_len as nat),
{
    proof {
        lemma2_to64();
    }
    if prefix_len == 0 {
        0
    } else if prefix_len >= 32 {
        u32::MAX
    } else {
        let shift: u32 = (32 - prefix_len) as u32;
        let size: u32 = 1u32 << shift;
        proof {
            vstd::bits::lemma_u32_pow2_no_overflow(shift as nat);
            lemma_u32_shl_is_mul(1, shift);
            assert(!((size - 1) as u32) == 0xffff_ffffu32 - (size - 1) as u32) by (bit_vector);
        }
        !(size - 1)
    }
}

/// Clearing the free bits of an IPv4 address gives the base of its block,
/// and setting them gives the block's last address.
pub proof fn lemma_mask_v4(value: u32, prefix_len: u8)
    ensures
        mask_value(32, prefix_len as nat) <= u32::MAX,
        value & (mask_value(32, prefix_len as nat) as u32) == block_base(
            value as nat,
            32,
            prefix_len as nat,
        ),
        (value & (mask_value(32, prefix_len as nat) as u32)) | !(mask_value(
            32,
            prefix_len as nat,
        ) as u32) == block_last(value as nat, 32, prefix_len as nat),
{
    lemma2_to64();
    lemma_block_base(value as nat, 32, prefix_len as nat);
    if prefix_len == 0 {
        assert(value & 0 == 0) by (bit_vector);
        assert(0u32 | !0u32 == 0xffff_ffffu32) by (bit_vector);
        vstd::arithmetic::div_mod::lemma_basic_div(value as int, pow2(32) as int);
    } else if prefix_len >= 32 {
        assert(value & 0xffff_ffffu32 == value) by (bit_vector);
        assert(value | !0xffff_ffffu32 == value) by (bit_vector);
    } else {
        let shift: u32 = (32 - prefix_len) as u32;
        let size: u32 = 1u32 << shift;
        vstd::bits::lemma_u32_pow2_no_overflow(shift as nat);
        lemma_u32_shl_is_mul(1, shift);
        assert(size == block_size(32, prefix_len as nat));
        let low: u32 = (size - 1) as u32;
        let mask: u32 = !low;
        assert(mask == 0xffff_ffffu32 - low) by (bit_vector)
            requires
                mask == !low,
        ;
        assert(value & mask == (value >> shift) << shift) by (bit_vector)
            requires
                0 < shift < 32,
                size == 1u32 << shift,
                low == (size - 1) as u32,
                mask == !low,
        ;
        lemma_u32_shr_is_div(value, shift);
        lemma_u32_shl_is_mul(value >> shift, shift);
        assert((value & mask) | !mask == (value & mask) + low) by (bit_vector)
            requires
                0 < shift < 32,
                size == 1u32 << shift,
                low == (size - 1) as u32,
                mask == !low,
        ;
    }
}

/// That one shifted left by `shift` is two to the power of `shift`.
pub proof fn lemma_u128_one_shl(shift: u128)
    requires
        shift < 128,
    ensures
        (1u128 << shift) == pow2(shift as nat),
    decreases shift,
{
    if shift == 0 {
        assert(1u128 << 0u128 == 1) by (bit_vector);
        lemma2_to64();
    } else {
        let before: u128 = (shift - 1) as u128;
        lemma_u128_one_shl(before);
        lemma_pow2_unfold(shift as nat);
        assert((1u128 << shift) == 2 * (1u128 << before)) by (bit_vector)
            requires
                0 < shift < 128,
                before == (shift - 1) as u128,
        ;
    }
}

/// That shifting left by `shift` multiplies by two to the power of `shift`
/// where no bit is lost.
pub proof fn lemma_u128_shl_is_mul(x: u128, shift: u128)
    requires
        shift < 128,
        x <= (0xffff_ffff_ffff_ffff_ffff_ffff_ffff_ffffu128 >> shift),
    ensures
        (x << shift) == x * pow2(shift as nat),
    decreases shift,
{
    if shift == 0 {
        assert(x << 0u128 == x) by (bit_vector);
        lemma2_to64();
        assert(x * pow2(0) == x);
    } else {
        let before: u128 = (shift - 1) as u128;
        assert(x <= (0xffff_ffff_ffff_ffff_ffff_ffff_ffff_ffffu128 >> before)) by (bit_vector)
            requires
                0 < shift < 128,
                before == (shift - 1) as u128,
                x <= (0xffff_ffff_ffff_ffff_ffff_ffff_ffff_ffffu128 >> shift),
        ;
        lemma_u128_shl_is_mul(x, before);
        lemma_pow2_unfold(shift as nat);
        assert((x << shift) == 2 * (x << before)) by (bit_vector)
            requires
                0 < shift < 128,
                before == (shift - 1) as u128,
                x <= (0xffff_ffff_ffff_ffff_ffff_ffff_ffff_ffffu128 >> shift),
        ;
        assert(2 * (x * pow2(before as nat)) == x * (2 * pow2(before as nat)))
            by (nonlinear_arith);
    }
}

/// The mask that keeps the leading `prefix_len` bits of an IPv6 address:
/// all zero for a prefix of 0, all one for a prefix of 128 or more.
pub fn mask_v6(prefix_len: u8) -> (mask: u128)
    ensures
        mask == mask_value(128, prefix_len as nat),
{
    if prefix_len == 0 {
        0
    } else if prefix_len >= 128 {
        proof {
            lemma_u128_one_shl(127);
            lemma_pow2_unfold(128);
            lemma2_to64();
            assert(1u128 << 127u128 == 0x8000_0000_0000_0000_0000_0000_0000_0000u128)
                by (bit_vector);
        }
        u128::MAX
    } else {
        let shift: u128 = (128 - prefix_len) as u128;
        let size: u128 = 1u128 << shift;
        proof {
            lemma_u128_one_shl(shift);
            lemma_u128_one_shl(127);
            lemma_pow2_unfold(128);
            assert(1u128 << 127u128 == 0x8000_0000_0000_0000_0000_0000_0000_0000u128)
                by (bit_vector);
            assert(size >= 1) by (bit_vector)
                requires
                    0 < shift < 128,
                    size == 1u128 << shift,
            ;
            assert(!((size - 1) as u128) == 0xffff_ffff_ffff_ffff_ffff_ffff_ffff_ffffu128 - (size
                - 1) as u128) by (bit_vector);
        }
        !(size - 1)
    }
}

/// Clearing the free bits of an IPv6 address gives the base of its block,
/// and setting them gives the block's last address.
pub proof fn lemma_mask_v6(value: u128, prefix_len: u8)
    ensures
        mask_value(128, prefix_len as nat) <= u128::MAX,
        value & (mask_value(128, prefix_len as nat) as u128) == block_base(
            value as nat,
            128,
            prefix_len as nat,
        ),
        (value & (mask_value(128, prefix_len as nat) as u128)) | !(mask_value(
            128,
            prefix_len as nat,
        ) as u128) == block_last(value as nat, 128, prefix_len as nat),
{
    lemma2_to64();
    lemma_u128_one_shl(127);
    lemma_pow2_unfold(128);
    assert(1u128 << 127u128 == 0x8000_0000_0000_0000_0000_0000_0000_0000u128) by (bit_vector);
    lemma_block_base(value as nat, 128, prefix_len as nat);
    if prefix_len == 0 {
        assert(value & 0 == 0) by (bit_vector);
        assert(0u128 | !0u128 == 0xffff_ffff_ffff_ffff_ffff_ffff_ffff_ffffu128) by (bit_vector);
        vstd::arithmetic::div_mod::lemma_basic_div(value as int, pow2(128) as int);
    } else if prefix_len >= 128 {
        assert(value & 0xffff_ffff_ffff_ffff_ffff_ffff_ffff_ffffu128 == value) by (bit_vector);
        assert(value | !0xffff_ffff_ffff_ffff_ffff_ffff_ffff_ffffu128 == value) by (bit_vector);
    } else {
        let shift: u128 = (128 - prefix_len) as u128;
        let size: u128 = 1u128 << shift;
        lemma_u128_one_shl(shift);
        assert(size == block_size(128, prefix_len as nat));
        let low: u128 = (size - 1) as u128;
        let mask: u128 = !low;
        assert(mask == 0xffff_ffff_ffff_ffff_ffff_ffff_ffff_ffffu128 - low) by (bit_vector)
            requires
                mask == !low,
        ;
        assert(value & mask == (value >> shift) << shift) by (bit_vector)
            requires
                0 < shift < 128,
                size == 1u128 << shift,
                low == (size - 1) as u128,
                mask == !low,
        ;
        assert((value >> shift) <= (0xffff_ffff_ffff_ffff_ffff_ffff_ffff_ffffu128 >> shift))
            by (bit_vector);
        lemma_u128_shr_is_div(value, shift);
        lemma_u128_shl_is_mul(value >> shift, shift);
        assert((value & mask) | !mask == (value & mask) + low) by (bit_vector)
            requires
                0 < shift < 128,
                size == 1u128 << shift,
                low == (size - 1) as u128,
                mask == !low,
        ;
    }
}

} // verus!
