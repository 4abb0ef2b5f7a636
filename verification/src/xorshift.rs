//! The xorshift64 recurrence.
//!
//! One step of the generator is a linear map over GF(2) on 64-bit words. This
//! module defines that step and proves two facts about it: it maps no word
//! but zero to zero, and no starting word yields sixty-five consecutive
//! words in the upper half of the range. The second fact is what makes
//! rejection sampling on top of the generator terminate.
//!
//! The bound on runs is proved from the characteristic polynomial of the
//! step. Whether a word of the orbit lies in the upper half is its top bit,
//! a linear form of the starting word; the forms that belong to the
//! exponents of the polynomial add up to zero, and there is an odd number of
//! them, so they cannot all be one.

use vstd::prelude::*;

verus! {

/// The smallest word with its top bit set, 2^63.
pub const UPPER_HALF: u64 = 0x8000_0000_0000_0000;

/// One step of the xorshift64 recurrence with the shift triple (12, 25, 27).
pub open spec fn xorshift64(x: u64) -> u64 {
    let a = x ^ (x << 12);
    let b = a ^ (a >> 25);
    b ^ (b << 27)
}

/// The word reached from `x` after `k` steps of the recurrence.
pub open spec fn xorshift64_iter(x: u64, k: nat) -> u64
    decreases k,
{
    if k == 0 {
        x
    } else {
        xorshift64_iter(xorshift64(x), (k - 1) as nat)
    }
}

/// How many consecutive words of the orbit of `x`, starting with `x` itself,
/// lie in the upper half of the range, counted up to `cap`.
pub open spec fn upper_run(x: u64, cap: nat) -> nat
    decreases cap,
{
    if cap == 0 || x < UPPER_HALF {
        0
    } else {
        1 + upper_run(xorshift64(x), (cap - 1) as nat)
    }
}

/// The recurrence never reaches zero from a nonzero word: each of its three
/// stages is injective and fixes zero.
pub proof fn lemma_xorshift64_nonzero(x: u64)
    requires
        x != 0,
    ensures
        xorshift64(x) != 0,
{
    let a = x ^ (x << 12);
    let b = a ^ (a >> 25);
    assert(x != 0 ==> x ^ (x << 12) != 0) by (bit_vector);
    assert(a != 0 ==> a ^ (a >> 25) != 0) by (bit_vector);
    assert(b != 0 ==> b ^ (b << 27) != 0) by (bit_vector);
}

/// Parity of the number of set bits of `v`.
spec fn parity(v: u64) -> bool {
    let a = v ^ (v >> 32);
    let b = a ^ (a >> 16);
    let c = b ^ (b >> 8);
    let d = c ^ (c >> 4);
    let e = d ^ (d >> 2);
    let f = e ^ (e >> 1);
    f & 1 == 1
}

/// The transpose of the xorshift64 step: for every word `x` and mask `m`, the
/// bits of `xorshift64(x)` selected by `m` have the same parity as the bits of
/// `x` selected by `transpose(m)`.
spec fn transpose(m: u64) -> u64 {
    let a = m ^ (m >> 27);
    let b = a ^ (a << 25);
    b ^ (b >> 12)
}

/// `transpose` applied `k` times to `m`.
spec fn transpose_iter(m: u64, k: nat) -> u64
    decreases k,
{
    if k == 0 {
        m
    } else {
        transpose(transpose_iter(m, (k - 1) as nat))
    }
}

/// Parity is additive.
proof fn lemma_parity_xor(p: u64, q: u64)
    by (bit_vector)
    ensures
        parity(p ^ q) == (parity(p) != parity(q)),
{
}

/// Shifting the word left is shifting the mask right, as far as parity goes.
proof fn lemma_parity_shl(x: u64, m: u64, s: u64)
    by (bit_vector)
    requires
        s == 12 || s == 27,
    ensures
        parity((x << s) & m) == parity(x & (m >> s)),
{
}

/// Shifting the word right is shifting the mask left, as far as parity goes.
proof fn lemma_parity_shr(x: u64, m: u64)
    by (bit_vector)
    ensures
        parity((x >> 25) & m) == parity(x & (m << 25)),
{
}

/// Parity of a masked word is additive in the mask.
proof fn lemma_parity_mask_xor(x: u64, m: u64, n: u64)
    ensures
        parity(x & (m ^ n)) == (parity(x & m) != parity(x & n)),
{
    assert(x & (m ^ n) == (x & m) ^ (x & n)) by (bit_vector);
    lemma_parity_xor(x & m, x & n);
}

/// Parity of a masked word is additive in the word.
proof fn lemma_parity_word_xor(p: u64, q: u64, m: u64)
    ensures
        parity((p ^ q) & m) == (parity(p & m) != parity(q & m)),
{
    assert((p ^ q) & m == (p & m) ^ (q & m)) by (bit_vector);
    lemma_parity_xor(p & m, q & m);
}

/// `transpose` is the transpose of the step.
proof fn lemma_transpose(x: u64, m: u64)
    ensures
        parity(xorshift64(x) & m) == parity(x & transpose(m)),
{
    let a = x ^ (x << 12);
    let b = a ^ (a >> 25);
    let m1 = m ^ (m >> 27);
    let m2 = m1 ^ (m1 << 25);
    lemma_parity_word_xor(b, b << 27, m);
    lemma_parity_shl(b, m, 27);
    lemma_parity_mask_xor(b, m, m >> 27);
    assert(parity(xorshift64(x) & m) == parity(b & m1));
    lemma_parity_word_xor(a, a >> 25, m1);
    lemma_parity_shr(a, m1);
    lemma_parity_mask_xor(a, m1, m1 << 25);
    assert(parity(b & m1) == parity(a & m2));
    lemma_parity_word_xor(x, x << 12, m2);
    lemma_parity_shl(x, m2, 12);
    lemma_parity_mask_xor(x, m2, m2 >> 12);
}

/// `transpose_iter` is the transpose of the iterated step.
proof fn lemma_transpose_iter(x: u64, m: u64, k: nat)
    ensures
        parity(xorshift64_iter(x, k) & m) == parity(x & transpose_iter(m, k)),
    decreases k,
{
    if k > 0 {
        lemma_transpose_iter(xorshift64(x), m, (k - 1) as nat);
        lemma_transpose(x, transpose_iter(m, (k - 1) as nat));
    }
}

/// Whether the `k`-th word of the orbit of `x` lies in the upper half, read
/// off `x` itself through the transposed map.
proof fn lemma_upper_as_parity(x: u64, k: nat)
    ensures
        (xorshift64_iter(x, k) >= UPPER_HALF) == parity(x & transpose_iter(UPPER_HALF, k)),
{
    let y = xorshift64_iter(x, k);
    assert((y >= 0x8000_0000_0000_0000u64) == parity(y & 0x8000_0000_0000_0000u64))
        by (bit_vector);
    lemma_transpose_iter(x, UPPER_HALF, k);
}

/// Exponents of the characteristic polynomial of the xorshift64 step over
/// GF(2), in increasing order.
spec fn taps() -> Seq<nat> {
    seq![0, 4, 5, 6, 8, 9, 11, 12, 15, 18, 19, 22, 23, 24, 25, 26,
        29, 31, 33, 35, 36, 37, 40, 41, 42, 44, 45, 47, 51, 52, 64]
}

/// Sum over GF(2) of the first `j` tap powers of `transpose`, applied to the
/// top-bit mask.
spec fn tap_sum(j: nat) -> u64
    decreases j,
{
    if j == 0 {
        0
    } else {
        tap_sum((j - 1) as nat) ^ transpose_iter(UPPER_HALF, taps()[j - 1])
    }
}

/// The step satisfies its characteristic polynomial: the tap powers of the
/// transposed map cancel on the top-bit mask.
proof fn lemma_tap_sum_vanishes()
    ensures
        tap_sum(31) == 0,
{
    let m0 = transpose_iter(UPPER_HALF, 0);
    let m1 = transpose_iter(UPPER_HALF, 1);
    let m2 = transpose_iter(UPPER_HALF, 2);
    let m3 = transpose_iter(UPPER_HALF, 3);
    let m4 = transpose_iter(UPPER_HALF, 4);
    let m5 = transpose_iter(UPPER_HALF, 5);
    let m6 = transpose_iter(UPPER_HALF, 6);
    let m7 = transpose_iter(UPPER_HALF, 7);
    let m8 = transpose_iter(UPPER_HALF, 8);
    let m9 = transpose_iter(UPPER_HALF, 9);
    let m10 = transpose_iter(UPPER_HALF, 10);
    let m11 = transpose_iter(UPPER_HALF, 11);
    let m12 = transpose_iter(UPPER_HALF, 12);
    let m13 = transpose_iter(UPPER_HALF, 13);
    let m14 = transpose_iter(UPPER_HALF, 14);
    let m15 = transpose_iter(UPPER_HALF, 15);
    let m16 = transpose_iter(UPPER_HALF, 16);
    let m17 = transpose_iter(UPPER_HALF, 17);
    let m18 = transpose_iter(UPPER_HALF, 18);
    let m19 = transpose_iter(UPPER_HALF, 19);
    let m20 = transpose_iter(UPPER_HALF, 20);
    let m21 = transpose_iter(UPPER_HALF, 21);
    let m22 = transpose_iter(UPPER_HALF, 22);
    let m23 = transpose_iter(UPPER_HALF, 23);
    let m24 = transpose_iter(UPPER_HALF, 24);
    let m25 = transpose_iter(UPPER_HALF, 25);
    let m26 = transpose_iter(UPPER_HALF, 26);
    let m27 = transpose_iter(UPPER_HALF, 27);
    let m28 = transpose_iter(UPPER_HALF, 28);
    let m29 = transpose_iter(UPPER_HALF, 29);
    let m30 = transpose_iter(UPPER_HALF, 30);
    let m31 = transpose_iter(UPPER_HALF, 31);
    let m32 = transpose_iter(UPPER_HALF, 32);
    let m33 = transpose_iter(UPPER_HALF, 33);
    let m34 = transpose_iter(UPPER_HALF, 34);
    let m35 = transpose_iter(UPPER_HALF, 35);
    let m36 = transpose_iter(UPPER_HALF, 36);
    let m37 = transpose_iter(UPPER_HALF, 37);
    let m38 = transpose_iter(UPPER_HALF, 38);
    let m39 = transpose_iter(UPPER_HALF, 39);
    let m40 = transpose_iter(UPPER_HALF, 40);
    let m41 = transpose_iter(UPPER_HALF, 41);
    let m42 = transpose_iter(UPPER_HALF, 42);
    let m43 = transpose_iter(UPPER_HALF, 43);
    let m44 = transpose_iter(UPPER_HALF, 44);
    let m45 = transpose_iter(UPPER_HALF, 45);
    let m46 = transpose_iter(UPPER_HALF, 46);
    let m47 = transpose_iter(UPPER_HALF, 47);
    let m48 = transpose_iter(UPPER_HALF, 48);
    let m49 = transpose_iter(UPPER_HALF, 49);
    let m50 = transpose_iter(UPPER_HALF, 50);
    let m51 = transpose_iter(UPPER_HALF, 51);
    let m52 = transpose_iter(UPPER_HALF, 52);
    let m53 = transpose_iter(UPPER_HALF, 53);
    let m54 = transpose_iter(UPPER_HALF, 54);
    let m55 = transpose_iter(UPPER_HALF, 55);
    let m56 = transpose_iter(UPPER_HALF, 56);
    let m57 = transpose_iter(UPPER_HALF, 57);
    let m58 = transpose_iter(UPPER_HALF, 58);
    let m59 = transpose_iter(UPPER_HALF, 59);
    let m60 = transpose_iter(UPPER_HALF, 60);
    let m61 = transpose_iter(UPPER_HALF, 61);
    let m62 = transpose_iter(UPPER_HALF, 62);
    let m63 = transpose_iter(UPPER_HALF, 63);
    let m64 = transpose_iter(UPPER_HALF, 64);
    let s0 = tap_sum(0);
    let s1 = tap_sum(1);
    let s2 = tap_sum(2);
    let s3 = tap_sum(3);
    let s4 = tap_sum(4);
    let s5 = tap_sum(5);
    let s6 = tap_sum(6);
    let s7 = tap_sum(7);
    let s8 = tap_sum(8);
    let s9 = tap_sum(9);
    let s10 = tap_sum(10);
    let s11 = tap_sum(11);
    let s12 = tap_sum(12);
    let s13 = tap_sum(13);
    let s14 = tap_sum(14);
    let s15 = tap_sum(15);
    let s16 = tap_sum(16);
    let s17 = tap_sum(17);
    let s18 = tap_sum(18);
    let s19 = tap_sum(19);
    let s20 = tap_sum(20);
    let s21 = tap_sum(21);
    let s22 = tap_sum(22);
    let s23 = tap_sum(23);
    let s24 = tap_sum(24);
    let s25 = tap_sum(25);
    let s26 = tap_sum(26);
    let s27 = tap_sum(27);
    let s28 = tap_sum(28);
    let s29 = tap_sum(29);
    let s30 = tap_sum(30);
    let s31 = tap_sum(31);
    assert(s31 == 0) by (bit_vector)
        requires
            m0 == 0x8000_0000_0000_0000u64,
            m1 == transpose(m0),
            m2 == transpose(m1),
            m3 == transpose(m2),
            m4 == transpose(m3),
            m5 == transpose(m4),
            m6 == transpose(m5),
            m7 == transpose(m6),
            m8 == transpose(m7),
            m9 == transpose(m8),
            m10 == transpose(m9),
            m11 == transpose(m10),
            m12 == transpose(m11),
            m13 == transpose(m12),
            m14 == transpose(m13),
            m15 == transpose(m14),
            m16 == transpose(m15),
            m17 == transpose(m16),
            m18 == transpose(m17),
            m19 == transpose(m18),
            m20 == transpose(m19),
            m21 == transpose(m20),
            m22 == transpose(m21),
            m23 == transpose(m22),
            m24 == transpose(m23),
            m25 == transpose(m24),
            m26 == transpose(m25),
            m27 == transpose(m26),
            m28 == transpose(m27),
            m29 == transpose(m28),
            m30 == transpose(m29),
            m31 == transpose(m30),
            m32 == transpose(m31),
            m33 == transpose(m32),
            m34 == transpose(m33),
            m35 == transpose(m34),
            m36 == transpose(m35),
            m37 == transpose(m36),
            m38 == transpose(m37),
            m39 == transpose(m38),
            m40 == transpose(m39),
            m41 == transpose(m40),
            m42 == transpose(m41),
            m43 == transpose(m42),
            m44 == transpose(m43),
            m45 == transpose(m44),
            m46 == transpose(m45),
            m47 == transpose(m46),
            m48 == transpose(m47),
            m49 == transpose(m48),
            m50 == transpose(m49),
            m51 == transpose(m50),
            m52 == transpose(m51),
            m53 == transpose(m52),
            m54 == transpose(m53),
            m55 == transpose(m54),
            m56 == transpose(m55),
            m57 == transpose(m56),
            m58 == transpose(m57),
            m59 == transpose(m58),
            m60 == transpose(m59),
            m61 == transpose(m60),
            m62 == transpose(m61),
            m63 == transpose(m62),
            m64 == transpose(m63),
            s0 == 0,
            s1 == s0 ^ m0,
            s2 == s1 ^ m4,
            s3 == s2 ^ m5,
            s4 == s3 ^ m6,
            s5 == s4 ^ m8,
            s6 == s5 ^ m9,
            s7 == s6 ^ m11,
            s8 == s7 ^ m12,
            s9 == s8 ^ m15,
            s10 == s9 ^ m18,
            s11 == s10 ^ m19,
            s12 == s11 ^ m22,
            s13 == s12 ^ m23,
            s14 == s13 ^ m24,
            s15 == s14 ^ m25,
            s16 == s15 ^ m26,
            s17 == s16 ^ m29,
            s18 == s17 ^ m31,
            s19 == s18 ^ m33,
            s20 == s19 ^ m35,
            s21 == s20 ^ m36,
            s22 == s21 ^ m37,
            s23 == s22 ^ m40,
            s24 == s23 ^ m41,
            s25 == s24 ^ m42,
            s26 == s25 ^ m44,
            s27 == s26 ^ m45,
            s28 == s27 ^ m47,
            s29 == s28 ^ m51,
            s30 == s29 ^ m52,
            s31 == s30 ^ m64,
    ;
}

/// If every tap word of the orbit of `x` lies in the upper half, the parity
/// of `x` under the partial tap sums alternates.
proof fn lemma_tap_parity(x: u64, j: nat)
    requires
        j <= 31,
        forall|k: nat| k <= 64 ==> #[trigger] xorshift64_iter(x, k) >= UPPER_HALF,
    ensures
        parity(x & tap_sum(j)) == (j % 2 == 1),
    decreases j,
{
    if j == 0 {
        assert(!parity(x & 0)) by (bit_vector);
    } else {
        let t = taps()[j - 1];
        assert(t <= 64);
        lemma_tap_parity(x, (j - 1) as nat);
        lemma_upper_as_parity(x, t);
        assert(xorshift64_iter(x, t) >= UPPER_HALF);
        lemma_parity_mask_xor(x, tap_sum((j - 1) as nat), transpose_iter(UPPER_HALF, t));
    }
}

/// A run that reaches its cap has every word up to the cap in the upper
/// half.
proof fn lemma_full_run(x: u64, cap: nat)
    requires
        upper_run(x, cap) >= cap,
    ensures
        forall|k: nat| k < cap ==> #[trigger] xorshift64_iter(x, k) >= UPPER_HALF,
    decreases cap,
{
    if cap > 0 {
        lemma_full_run(xorshift64(x), (cap - 1) as nat);
        assert forall|k: nat| k < cap implies #[trigger] xorshift64_iter(x, k) >= UPPER_HALF by {
            if k > 0 {
                assert(xorshift64_iter(xorshift64(x), (k - 1) as nat) >= UPPER_HALF);
            }
        }
    }
}

/// A run that ends before `cap` is not lengthened by a larger cap.
proof fn lemma_upper_run_cap(x: u64, cap: nat)
    ensures
        upper_run(x, cap) <= cap,
        upper_run(x, cap + 1) <= cap ==> upper_run(x, cap) == upper_run(x, cap + 1),
    decreases cap,
{
    if cap > 0 && x >= UPPER_HALF {
        lemma_upper_run_cap(xorshift64(x), (cap - 1) as nat);
    }
}

/// No orbit of the recurrence stays in the upper half of the range for
/// sixty-five consecutive words.
pub proof fn lemma_upper_run_bounded(x: u64)
    ensures
        upper_run(x, 65) <= 64,
{
    lemma_upper_run_cap(x, 65);
    if upper_run(x, 65) == 65 {
        lemma_full_run(x, 65);
        lemma_tap_parity(x, 31);
        lemma_tap_sum_vanishes();
        assert(!parity(x & 0)) by (bit_vector);
    }
}

/// A word in the upper half is followed by a word whose run is strictly
/// shorter.
pub proof fn lemma_upper_run_decreases(x: u64)
    requires
        x >= UPPER_HALF,
    ensures
        upper_run(xorshift64(x), 65) < upper_run(x, 65),
{
    let y = xorshift64(x);
    lemma_upper_run_bounded(y);
    lemma_upper_run_cap(y, 64);
}

} // verus!
