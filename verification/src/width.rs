//! The value-sizing rules shared by every instruction family: truncation to
//! an effective width of 1, 2, 4 or 8 bytes, sign extension back to 64 bits,
//! and the little-endian byte encoding used by the flat memory.

use vstd::prelude::*;
use vstd::arithmetic::div_mod::{
    lemma_div_is_ordered_by_denominator, lemma_div_multiples_vanish, lemma_div_nonincreasing,
    lemma_div_pos_is_pos, lemma_fundamental_div_mod, lemma_mod_bound, lemma_mod_multiples_vanish,
    lemma_multiply_divide_lt, lemma_small_mod,
};
use vstd::arithmetic::mul::lemma_mul_is_associative;
use crate::instruction_set::InstructionSize;

verus! {

/// The number of bytes a value of the given instruction size occupies.
pub open spec fn size_bytes(size: InstructionSize) -> int {
    match size {
        InstructionSize::OneByte => 1,
        InstructionSize::TwoByte => 2,
        InstructionSize::FourByte => 4,
        InstructionSize::EightByte => 8,
    }
}

/// The number of distinct values of a quantity of the given size, 2^(8*n)
/// for n bytes.
pub open spec fn size_width(size: InstructionSize) -> int {
    match size {
        InstructionSize::OneByte => 0x100,
        InstructionSize::TwoByte => 0x1_0000,
        InstructionSize::FourByte => 0x1_0000_0000,
        InstructionSize::EightByte => 0x1_0000_0000_0000_0000,
    }
}

/// `v` reduced to the unsigned range [0, w): the bit pattern of `v`'s low
/// bytes read as an unsigned number.
pub open spec fn to_unsigned(v: int, w: int) -> int {
    v % w
}

/// `v` truncated to the width `w = 2^(8n)` and the result reinterpreted as
/// an n-byte signed integer: the value every read and write of size n
/// produces.
pub open spec fn sign_extend(v: int, w: int) -> int {
    let m = v % w;
    if m >= w / 2 {
        m - w
    } else {
        m
    }
}

/// `w` is one of the four widths an `InstructionSize` can name.
pub open spec fn is_size_width(w: int) -> bool {
    w == 0x100 || w == 0x1_0000 || w == 0x1_0000_0000 || w == 0x1_0000_0000_0000_0000
}

/// A sign-extended value lies in the signed n-byte range [-w/2, w/2).
pub proof fn lemma_sign_extend_bounds(v: int, w: int)
    requires
        0 < w,
        w % 2 == 0,
    ensures
        -(w / 2) <= sign_extend(v, w) < w / 2,
{
    lemma_mod_bound(v, w);
}

/// Sign extension is idempotent: a value already of the form
/// `sign_extend(_, w)` is left unchanged by another pass at the same width.
pub proof fn lemma_sign_extend_of_extended(v: int, w: int)
    requires
        0 < w,
    ensures
        sign_extend(sign_extend(v, w), w) == sign_extend(v, w),
{
    lemma_mod_bound(v, w);
    let m = v % w;
    if m >= w / 2 {
        lemma_mod_multiples_vanish(-1, m, w);
        lemma_small_mod(m as nat, w as nat);
    } else {
        lemma_small_mod(m as nat, w as nat);
    }
}

/// A value already in the signed range of width `w` is its own sign
/// extension: narrowing loses nothing on values that fit.
pub proof fn lemma_sign_extend_in_range(v: int, w: int)
    requires
        0 < w,
        w % 2 == 0,
        -(w / 2) <= v < w / 2,
    ensures
        sign_extend(v, w) == v,
{
    if v >= 0 {
        lemma_small_mod(v as nat, w as nat);
    } else {
        lemma_mod_multiples_vanish(1, v, w);
        lemma_small_mod((v + w) as nat, w as nat);
    }
}

/// Sign-extending a 64-bit wrapped result of an exact computation gives the
/// same value as sign-extending the exact result: wrapping moves a value by
/// a multiple of 2^64, and every instruction width divides 2^64.
pub proof fn lemma_sign_extend_wrapped(exact: int, wrapped: int, w: int)
    requires
        is_size_width(w),
        wrapped == exact || wrapped == exact - 0x1_0000_0000_0000_0000 || wrapped == exact
            + 0x1_0000_0000_0000_0000,
    ensures
        sign_extend(wrapped, w) == sign_extend(exact, w),
{
    if w == 0x100 {
        lemma_mod_multiples_vanish(0x100_0000_0000_0000, exact, w);
        lemma_mod_multiples_vanish(-0x100_0000_0000_0000, exact, w);
    } else if w == 0x1_0000 {
        lemma_mod_multiples_vanish(0x1_0000_0000_0000, exact, w);
        lemma_mod_multiples_vanish(-0x1_0000_0000_0000, exact, w);
    } else if w == 0x1_0000_0000 {
        lemma_mod_multiples_vanish(0x1_0000_0000, exact, w);
        lemma_mod_multiples_vanish(-0x1_0000_0000, exact, w);
    } else {
        lemma_mod_multiples_vanish(1, exact, w);
        lemma_mod_multiples_vanish(-1, exact, w);
    }
}

/// Values congruent modulo 2^64 sign-extend to the same result at every
/// instruction width, because every width divides 2^64.
pub proof fn lemma_sign_extend_mod64(exact: int, wrapped: int, w: int)
    requires
        is_size_width(w),
        (wrapped - exact) % 0x1_0000_0000_0000_0000 == 0,
    ensures
        sign_extend(wrapped, w) == sign_extend(exact, w),
{
    let big = 0x1_0000_0000_0000_0000;
    let k = (wrapped - exact) / big;
    lemma_fundamental_div_mod(wrapped - exact, big);
    assert(wrapped == big * k + exact);
    if w == 0x100 {
        lemma_mul_is_associative(w, 0x100_0000_0000_0000, k);
        lemma_mod_multiples_vanish(0x100_0000_0000_0000 * k, exact, w);
    } else if w == 0x1_0000 {
        lemma_mul_is_associative(w, 0x1_0000_0000_0000, k);
        lemma_mod_multiples_vanish(0x1_0000_0000_0000 * k, exact, w);
    } else if w == 0x1_0000_0000 {
        lemma_mul_is_associative(w, 0x1_0000_0000, k);
        lemma_mod_multiples_vanish(0x1_0000_0000 * k, exact, w);
    } else {
        lemma_mod_multiples_vanish(k, exact, w);
    }
}

/// A 64-bit value cropped into the signed 64-bit range differs from the
/// exact value by a multiple of 2^64.
pub proof fn lemma_crop_congruent(exact: int, wrapped: int)
    requires
        wrapped == exact % 0x1_0000_0000_0000_0000 || wrapped == exact % 0x1_0000_0000_0000_0000
            - 0x1_0000_0000_0000_0000,
    ensures
        (wrapped - exact) % 0x1_0000_0000_0000_0000 == 0,
{
    let big = 0x1_0000_0000_0000_0000;
    let q = exact / big;
    lemma_fundamental_div_mod(exact, big);
    lemma_small_mod(0nat, big as nat);
    lemma_mod_multiples_vanish(-q, 0, big);
    lemma_mod_multiples_vanish(-q - 1, 0, big);
    assert(wrapped - exact == big * (-q) || wrapped - exact == big * (-q - 1));
}

/// The little-endian reading of a byte sequence as an unsigned number: the
/// first byte is the least significant.
pub open spec fn le_bytes(s: Seq<u8>) -> int
    decreases s.len(),
{
    if s.len() == 0 {
        0
    } else {
        s[0] + 0x100 * le_bytes(s.drop_first())
    }
}

/// The little-endian encoding of the unsigned value `u` in `n` bytes: the
/// inverse of `le_bytes` on values that fit.
pub open spec fn le_seq(u: int, n: nat) -> Seq<u8>
    decreases n,
{
    if n == 0 {
        Seq::empty()
    } else {
        seq![(u % 0x100) as u8] + le_seq(u / 0x100, (n - 1) as nat)
    }
}

/// The number of distinct values of an `n`-byte quantity, 2^(8n).
pub open spec fn bytes_width(n: nat) -> int
    decreases n,
{
    if n == 0 {
        1
    } else {
        0x100 * bytes_width((n - 1) as nat)
    }
}

/// The per-size width constants agree with the general 2^(8n) form.
pub proof fn lemma_size_width_bytes(size: InstructionSize)
    ensures
        size_width(size) == bytes_width(size_bytes(size) as nat),
{
    reveal_with_fuel(bytes_width, 9);
}

/// A little-endian encoding has exactly the requested length.
pub proof fn lemma_le_seq_len(u: int, n: nat)
    ensures
        le_seq(u, n).len() == n,
    decreases n,
{
    if n > 0 {
        lemma_le_seq_len(u / 0x100, (n - 1) as nat);
    }
}

/// Little-endian round trip on the unsigned level: decoding the `n`-byte
/// encoding of a value that fits in `n` bytes gives the value back.
pub proof fn lemma_le_decode_encode(u: int, n: nat)
    requires
        0 <= u < bytes_width(n),
    ensures
        le_bytes(le_seq(u, n)) == u,
    decreases n,
{
    if n == 0 {
        assert(le_seq(u, 0) =~= Seq::<u8>::empty());
    } else {
        let q = u / 0x100;
        let r = u % 0x100;
        lemma_mod_bound(u, 0x100);
        lemma_div_pos_is_pos(u, 0x100);
        lemma_multiply_divide_lt(u, 0x100, bytes_width((n - 1) as nat));
        lemma_le_decode_encode(q, (n - 1) as nat);
        lemma_le_seq_len(q, (n - 1) as nat);
        assert(le_seq(u, n).drop_first() =~= le_seq(q, (n - 1) as nat));
        assert(le_seq(u, n)[0] == r as u8);
        lemma_fundamental_div_mod(u, 0x100);
    }
}

/// Explicit form of `le_bytes` on a two-byte sequence.
pub proof fn lemma_le_bytes_2(s: Seq<u8>)
    requires
        s.len() == 2,
    ensures
        le_bytes(s) == s[0] + 0x100 * s[1],
{
    reveal_with_fuel(le_bytes, 3);
    assert(s.drop_first().drop_first() =~= Seq::<u8>::empty());
}

/// Explicit form of `le_bytes` on a four-byte sequence.
pub proof fn lemma_le_bytes_4(s: Seq<u8>)
    requires
        s.len() == 4,
    ensures
        le_bytes(s) == s[0] + 0x100 * s[1] + 0x1_0000 * s[2] + 0x100_0000 * s[3],
{
    reveal_with_fuel(le_bytes, 5);
    assert(s.drop_first().drop_first().drop_first().drop_first() =~= Seq::<u8>::empty());
}

/// Explicit form of `le_bytes` on an eight-byte sequence.
pub proof fn lemma_le_bytes_8(s: Seq<u8>)
    requires
        s.len() == 8,
    ensures
        le_bytes(s) == s[0] + 0x100 * s[1] + 0x1_0000 * s[2] + 0x100_0000 * s[3] + 0x1_0000_0000
            * s[4] + 0x100_0000_0000 * s[5] + 0x1_0000_0000_0000 * s[6] + 0x100_0000_0000_0000
            * s[7],
{
    reveal_with_fuel(le_bytes, 9);
    assert(s.drop_first().drop_first().drop_first().drop_first().drop_first().drop_first()
        .drop_first().drop_first() =~= Seq::<u8>::empty());
}

/// Explicit form of the two-byte little-endian encoding, phrased with the
/// chained divisions an implementation computes.
pub proof fn lemma_le_seq_2(u: int)
    ensures
        le_seq(u, 2) =~= seq![
            (u % 0x100) as u8,
            (u / 0x100 % 0x100) as u8,
        ],
{
    reveal_with_fuel(le_seq, 3);
    lemma_le_seq_len(u, 2);
}

/// Explicit form of the four-byte little-endian encoding.
pub proof fn lemma_le_seq_4(u: int)
    ensures
        le_seq(u, 4) =~= seq![
            (u % 0x100) as u8,
            (u / 0x100 % 0x100) as u8,
            (u / 0x100 / 0x100 % 0x100) as u8,
            (u / 0x100 / 0x100 / 0x100 % 0x100) as u8,
        ],
{
    reveal_with_fuel(le_seq, 5);
    lemma_le_seq_len(u, 4);
}

/// Explicit form of the eight-byte little-endian encoding.
pub proof fn lemma_le_seq_8(u: int)
    ensures
        le_seq(u, 8) =~= seq![
            (u % 0x100) as u8,
            (u / 0x100 % 0x100) as u8,
            (u / 0x100 / 0x100 % 0x100) as u8,
            (u / 0x100 / 0x100 / 0x100 % 0x100) as u8,
            (u / 0x100 / 0x100 / 0x100 / 0x100 % 0x100) as u8,
            (u / 0x100 / 0x100 / 0x100 / 0x100 / 0x100 % 0x100) as u8,
            (u / 0x100 / 0x100 / 0x100 / 0x100 / 0x100 / 0x100 % 0x100) as u8,
            (u / 0x100 / 0x100 / 0x100 / 0x100 / 0x100 / 0x100 / 0x100 % 0x100) as u8,
        ],
{
    reveal_with_fuel(le_seq, 9);
    lemma_le_seq_len(u, 8);
}

/// Division truncated toward zero: the quotient 64-bit signed division
/// computes, as opposed to the Euclidean quotient of spec-level `/`.
pub open spec fn tdiv(x: int, d: int) -> int {
    if x == 0 {
        0
    } else if x > 0 && d > 0 {
        x / d
    } else if x < 0 && d < 0 {
        (x * -1) / (d * -1)
    } else if x < 0 {
        ((x * -1) / d) * -1
    } else {
        (x / (d * -1)) * -1
    }
}

/// Remainder of division truncated toward zero: takes the sign of the
/// dividend, as 64-bit signed remainder does.
pub open spec fn tmod(x: int, d: int) -> int {
    if x == 0 {
        0
    } else if x > 0 && d > 0 {
        x % d
    } else if x < 0 && d < 0 {
        ((x * -1) % (d * -1)) * -1
    } else if x < 0 {
        ((x * -1) % d) * -1
    } else {
        x % (d * -1)
    }
}

/// On 64-bit operands the truncated quotient fits back in 64 bits, except
/// for the lone overflowing pair (minimum value, -1).
pub proof fn lemma_tdiv_fits(x: int, d: int)
    requires
        -0x8000_0000_0000_0000 <= x <= 0x7fff_ffff_ffff_ffff,
        -0x8000_0000_0000_0000 <= d <= 0x7fff_ffff_ffff_ffff,
        d != 0,
        !(x == -0x8000_0000_0000_0000 && d == -1),
    ensures
        -0x8000_0000_0000_0000 <= tdiv(x, d) <= 0x7fff_ffff_ffff_ffff,
{
    if x == 0 {
    } else if x > 0 && d > 0 {
        lemma_div_pos_is_pos(x, d);
        lemma_div_nonincreasing(x, d);
    } else if x < 0 && d < 0 {
        lemma_div_pos_is_pos(x * -1, d * -1);
        lemma_div_nonincreasing(x * -1, d * -1);
        if x == -0x8000_0000_0000_0000 {
            lemma_div_is_ordered_by_denominator(0x8000_0000_0000_0000, 2, d * -1);
            lemma_div_multiples_vanish(0x4000_0000_0000_0000, 2);
        }
    } else if x < 0 {
        lemma_div_pos_is_pos(x * -1, d);
        lemma_div_nonincreasing(x * -1, d);
    } else {
        lemma_div_pos_is_pos(x, d * -1);
        lemma_div_nonincreasing(x, d * -1);
    }
}

/// On 64-bit operands the truncated remainder fits back in 64 bits.
pub proof fn lemma_tmod_fits(x: int, d: int)
    requires
        -0x8000_0000_0000_0000 <= x <= 0x7fff_ffff_ffff_ffff,
        -0x8000_0000_0000_0000 <= d <= 0x7fff_ffff_ffff_ffff,
        d != 0,
    ensures
        -0x8000_0000_0000_0000 <= tmod(x, d) <= 0x7fff_ffff_ffff_ffff,
{
    if x == 0 {
    } else if x > 0 && d > 0 {
        lemma_mod_bound(x, d);
    } else if x < 0 && d < 0 {
        lemma_mod_bound(x * -1, d * -1);
    } else if x < 0 {
        lemma_mod_bound(x * -1, d);
    } else {
        lemma_mod_bound(x, d * -1);
    }
}

/// Truncates `v` to the given size and sign-extends the result back to 64
/// bits: the shared narrowing step of `get_value` and `set_value`.
pub fn truncate_to_size(v: i64, size: InstructionSize) -> (r: i64)
    ensures
        r as int == sign_extend(v as int, size_width(size)),
{
    match size {
        InstructionSize::OneByte => {
            let t: i8 = #[verifier::truncate] (v as i8);
            proof {
                assert(t as int == sign_extend(v as int, 0x100)) by (bit_vector)
                    requires
                        t == (v as i8),
                ;
            }
            t as i64
        }
        InstructionSize::TwoByte => {
            let t: i16 = #[verifier::truncate] (v as i16);
            proof {
                assert(t as int == sign_extend(v as int, 0x1_0000)) by (bit_vector)
                    requires
                        t == (v as i16),
                ;
            }
            t as i64
        }
        InstructionSize::FourByte => {
            let t: i32 = #[verifier::truncate] (v as i32);
            proof {
                assert(t as int == sign_extend(v as int, 0x1_0000_0000)) by (bit_vector)
                    requires
                        t == (v as i32),
                ;
            }
            t as i64
        }
        InstructionSize::EightByte => {
            proof {
                assert(v as int == sign_extend(v as int, 0x1_0000_0000_0000_0000))
                    by (bit_vector);
            }
            v
        }
    }
}

} // verus!
