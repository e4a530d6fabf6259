//! CRC-16/CCITT-FALSE: polynomial 0x1021, initial value 0xFFFF, most
//! significant bit first, no reflection, no final xor.

use vstd::prelude::*;

verus! {

/// Initial register value of CRC-16/CCITT-FALSE.
pub const CRC16_INIT: u16 = 0xFFFF;

/// Generator polynomial of CRC-16/CCITT (x^16 + x^12 + x^5 + 1).
pub const CRC16_POLY: u16 = 0x1021;

/// One step of the shift register: shift left by one bit, and subtract
/// (xor) the polynomial when a one bit falls out of the top.
pub open spec fn crc_shift(crc: u16) -> u16 {
    if crc & 0x8000 != 0 {
        (crc << 1u16) ^ CRC16_POLY
    } else {
        crc << 1u16
    }
}

/// `n` register steps.
pub open spec fn crc_shift_n(crc: u16, n: nat) -> u16
    decreases n,
{
    if n == 0 {
        crc
    } else {
        crc_shift(crc_shift_n(crc, (n - 1) as nat))
    }
}

/// Feed one byte, most significant bit first, into the register.
pub open spec fn crc_feed(crc: u16, byte: u8) -> u16 {
    crc_shift_n(crc ^ ((byte as u16) << 8u16), 8)
}

/// The register after feeding `data` in order, starting from `crc`.
pub open spec fn crc_update(crc: u16, data: Seq<u8>) -> u16
    decreases data.len(),
{
    if data.len() == 0 {
        crc
    } else {
        crc_feed(crc_update(crc, data.drop_last()), data.last())
    }
}

/// CRC-16/CCITT-FALSE of `data`.
pub open spec fn crc16(data: Seq<u8>) -> u16 {
    crc_update(CRC16_INIT, data)
}

/// Feeding two pieces one after the other is feeding their concatenation.
pub proof fn lemma_crc_update_concat(crc: u16, a: Seq<u8>, b: Seq<u8>)
    ensures
        crc_update(crc_update(crc, a), b) == crc_update(crc, a + b),
    decreases b.len(),
{
    if b.len() == 0 {
        assert(a + b =~= a);
    } else {
        lemma_crc_update_concat(crc, a, b.drop_last());
        assert((a + b).drop_last() =~= a + b.drop_last());
        assert((a + b).last() == b.last());
    }
}

/// Continue a CRC computation: the register after feeding `data` into `crc`.
pub fn crc16_update(crc: u16, data: &[u8]) -> (r: u16)
    ensures
        r == crc_update(crc, data@),
{
    let mut reg: u16 = crc;
    let mut i: usize = 0;
    while i < data.len()
        invariant
            i <= data@.len(),
            reg == crc_update(crc, data@.take(i as int)),
        decreases data@.len() - i,
    {
        let byte: u8 = data[i];
        let ghost before = reg;
        reg = reg ^ ((byte as u16) << 8u16);
        let mut bit: u32 = 0;
        while bit < 8
            invariant
                bit <= 8,
                reg == crc_shift_n(before ^ ((byte as u16) << 8u16), bit as nat),
            decreases 8 - bit,
        {
            reg = if reg & 0x8000 != 0 {
                (reg << 1u16) ^ CRC16_POLY
            } else {
                reg << 1u16
            };
            bit = bit + 1;
        }
        assert(data@.take(i + 1).drop_last() =~= data@.take(i as int));
        i = i + 1;
    }
    assert(data@.take(data@.len() as int) =~= data@);
    reg
}

/// CRC-16/CCITT-FALSE of `data`.
pub fn crc16_ccitt(data: &[u8]) -> (r: u16)
    ensures
        r == crc16(data@),
{
    crc16_update(CRC16_INIT, data)
}


/// One register step loses no information: distinct registers stay distinct.
pub proof fn lemma_shift_injective(a: u16, b: u16)
    requires
        a != b,
    ensures
        crc_shift(a) != crc_shift(b),
{
    assert(a != b ==> (if a & 0x8000 != 0 { (a << 1u16) ^ 0x1021u16 } else { a << 1u16 }) != (if b & 0x8000
        != 0 {
        (b << 1u16) ^ 0x1021u16
    } else {
        b << 1u16
    })) by (bit_vector);
}

/// Any number of register steps loses no information.
pub proof fn lemma_shift_n_injective(a: u16, b: u16, n: nat)
    requires
        a != b,
    ensures
        crc_shift_n(a, n) != crc_shift_n(b, n),
    decreases n,
{
    if n > 0 {
        lemma_shift_n_injective(a, b, (n - 1) as nat);
        lemma_shift_injective(crc_shift_n(a, (n - 1) as nat), crc_shift_n(b, (n - 1) as nat));
    }
}

/// Feeding the same byte into distinct registers, or distinct bytes into the
/// same register, gives distinct registers.
pub proof fn lemma_feed_injective(a: u16, b: u16, x: u8, y: u8)
    requires
        a != b || x != y,
        a == b || x == y,
    ensures
        crc_feed(a, x) != crc_feed(b, y),
{
    assert((a != b || x != y) && (a == b || x == y) ==> a ^ ((x as u16) << 8u16) != b ^ ((y as u16) << 8u16))
        by (bit_vector);
    lemma_shift_n_injective(a ^ ((x as u16) << 8u16), b ^ ((y as u16) << 8u16), 8);
}

/// Feeding the same bytes into distinct registers gives distinct registers.
pub proof fn lemma_update_injective(a: u16, b: u16, data: Seq<u8>)
    requires
        a != b,
    ensures
        crc_update(a, data) != crc_update(b, data),
    decreases data.len(),
{
    if data.len() > 0 {
        lemma_update_injective(a, b, data.drop_last());
        lemma_feed_injective(crc_update(a, data.drop_last()), crc_update(b, data.drop_last()), data.last(), data.last());
    }
}

/// The CRC changes whenever exactly one byte of the data changes.
pub proof fn lemma_crc_detects_single_byte_change(data: Seq<u8>, i: int, v: u8)
    requires
        0 <= i < data.len(),
        v != data[i],
    ensures
        crc16(data.update(i, v)) != crc16(data),
{
    let changed = data.update(i, v);
    let before = data.take(i);
    let after = data.skip(i + 1);
    assert(data =~= before.push(data[i]) + after);
    assert(changed =~= before.push(v) + after);
    lemma_crc_update_concat(CRC16_INIT, before.push(data[i]), after);
    lemma_crc_update_concat(CRC16_INIT, before.push(v), after);
    assert(before.push(data[i]).drop_last() =~= before);
    assert(before.push(v).drop_last() =~= before);
    let r = crc_update(CRC16_INIT, before);
    lemma_feed_injective(r, r, v, data[i]);
    lemma_update_injective(crc_feed(r, v), crc_feed(r, data[i]), after);
}


// ── Algebra of the register ──────────────────────────────────────────────────

/// A register step is linear over xor.
proof fn lemma_shift_xor(a: u16, b: u16)
    ensures
        crc_shift(a ^ b) == crc_shift(a) ^ crc_shift(b),
{
    assert((if (a ^ b) & 0x8000 != 0 { ((a ^ b) << 1u16) ^ 0x1021u16 } else { (a ^ b) << 1u16 }) == (if a
        & 0x8000 != 0 {
        (a << 1u16) ^ 0x1021u16
    } else {
        a << 1u16
    }) ^ (if b & 0x8000 != 0 {
        (b << 1u16) ^ 0x1021u16
    } else {
        b << 1u16
    })) by (bit_vector);
}

/// Any number of register steps is linear over xor.
proof fn lemma_shift_n_xor(a: u16, b: u16, n: nat)
    ensures
        crc_shift_n(a ^ b, n) == crc_shift_n(a, n) ^ crc_shift_n(b, n),
    decreases n,
{
    if n > 0 {
        lemma_shift_n_xor(a, b, (n - 1) as nat);
        lemma_shift_xor(crc_shift_n(a, (n - 1) as nat), crc_shift_n(b, (n - 1) as nat));
    }
}

/// `m` steps after `n` steps are `n + m` steps.
proof fn lemma_shift_n_add(x: u16, n: nat, m: nat)
    ensures
        crc_shift_n(crc_shift_n(x, n), m) == crc_shift_n(x, n + m),
    decreases m,
{
    if m > 0 {
        lemma_shift_n_add(x, n, (m - 1) as nat);
    }
}

/// The zero register stays zero.
proof fn lemma_shift_n_zero(n: nat)
    ensures
        crc_shift_n(0, n) == 0,
    decreases n,
{
    if n > 0 {
        lemma_shift_n_zero((n - 1) as nat);
        assert((if 0u16 & 0x8000 != 0 { (0u16 << 1u16) ^ 0x1021u16 } else { 0u16 << 1u16 }) == 0u16)
            by (bit_vector);
    }
}

/// While no one bit reaches the top, register steps are plain left shifts.
proof fn lemma_shift_n_small(x: u16, n: u32)
    requires
        n <= 16,
        (x as u32) >> ((16 - n) as u32) == 0,
    ensures
        crc_shift_n(x, n as nat) == ((x as u32) << n) as u16,
    decreases n,
{
    if n == 0 {
        assert(((x as u32) << 0u32) as u16 == x) by (bit_vector);
    } else {
        let m: u32 = (n - 1) as u32;
        assert((x as u32) >> ((16 - m) as u32) == 0 && (((x as u32) << m) as u16) & 0x8000 == 0 && ((((x as u32)
            << m) as u16) << 1u16) == ((x as u32) << n) as u16) by (bit_vector)
            requires
                m < 16,
                n == m + 1,
                (x as u32) >> ((16 - n) as u32) == 0,
        ;
        lemma_shift_n_small(x, m);
        let y = ((x as u32) << m) as u16;
        assert(crc_shift_n(x, n as nat) == crc_shift(y));
    }
}

/// Feeding a byte: the register's own steps, xor the byte's.
proof fn lemma_feed_split(r: u16, b: u8)
    ensures
        crc_feed(r, b) == crc_shift_n(r, 8) ^ crc_shift_n(b as u16, 16),
{
    lemma_shift_n_xor(r, (b as u16) << 8u16, 8);
    assert(((b as u16) as u32) >> ((16 - 8u32) as u32) == 0 && (((b as u16) as u32) << 8u32) as u16 == (b as u16) << 8u16)
        by (bit_vector);
    lemma_shift_n_small(b as u16, 8);
    lemma_shift_n_add(b as u16, 8, 8);
}

/// Appending the CRC of the data to it, high byte first, leaves a zero
/// register: the check value of data followed by its own CRC is zero.
pub proof fn lemma_crc_zero_residue(data: Seq<u8>)
    ensures
        crc16(data + seq![(crc16(data) >> 8u16) as u8, (crc16(data) & 0xffu16) as u8]) == 0,
{
    let c = crc16(data);
    let hi = (c >> 8u16) as u8;
    let lo = (c & 0xffu16) as u8;
    let whole = data + seq![hi, lo];
    assert(whole.drop_last() =~= data.push(hi));
    assert(data.push(hi).drop_last() =~= data);
    assert(whole.last() == lo);
    assert(crc_update(CRC16_INIT, data.push(hi)) == crc_feed(c, hi));
    assert(crc16(whole) == crc_feed(crc_feed(c, hi), lo));
    let y = c & 0xffu16;
    assert(c ^ ((hi as u16) << 8u16) == y && (y as u32) >> ((16 - 8u32) as u32) == 0 && ((((y as u32) << 8u32) as u16)
        ^ ((lo as u16) << 8u16)) == 0) by (bit_vector)
        requires
            hi == (c >> 8u16) as u8,
            lo == (c & 0xffu16) as u8,
            y == c & 0xffu16,
    ;
    lemma_shift_n_small(y, 8);
    lemma_shift_n_zero(8);
}


/// The bytewise xor of two byte sequences of the same length.
pub open spec fn xor_bytes(a: Seq<u8>, b: Seq<u8>) -> Seq<u8> {
    Seq::new(a.len(), |i: int| a[i] ^ b[i])
}

/// `n` zero bytes.
pub open spec fn zero_bytes(n: nat) -> Seq<u8> {
    Seq::new(n, |i: int| 0u8)
}

/// Feeding is linear over xor, in the register and in the byte together.
proof fn lemma_feed_xor(x: u16, y: u16, p: u8, q: u8)
    ensures
        crc_feed(x, p) ^ crc_feed(y, q) == crc_feed(x ^ y, p ^ q),
{
    assert((x ^ ((p as u16) << 8u16)) ^ (y ^ ((q as u16) << 8u16)) == (x ^ y) ^ (((p ^ q) as u16) << 8u16))
        by (bit_vector);
    lemma_shift_n_xor(x ^ ((p as u16) << 8u16), y ^ ((q as u16) << 8u16), 8);
}

/// Feeding two sequences of the same length is linear over xor.
proof fn lemma_update_xor(x: u16, y: u16, a: Seq<u8>, b: Seq<u8>)
    requires
        a.len() == b.len(),
    ensures
        crc_update(x, a) ^ crc_update(y, b) == crc_update(x ^ y, xor_bytes(a, b)),
    decreases a.len(),
{
    if a.len() > 0 {
        lemma_update_xor(x, y, a.drop_last(), b.drop_last());
        assert(xor_bytes(a, b).drop_last() =~= xor_bytes(a.drop_last(), b.drop_last()));
        lemma_feed_xor(crc_update(x, a.drop_last()), crc_update(y, b.drop_last()), a.last(), b.last());
    }
}

/// Zero bytes leave the zero register at zero.
proof fn lemma_update_zeros(n: nat)
    ensures
        crc_update(0, zero_bytes(n)) == 0,
    decreases n,
{
    if n > 0 {
        lemma_update_zeros((n - 1) as nat);
        assert(zero_bytes(n).drop_last() =~= zero_bytes((n - 1) as nat));
        assert(0u16 ^ ((0u8 as u16) << 8u16) == 0u16) by (bit_vector);
        lemma_shift_n_zero(8);
    }
}

/// Byte `m` of the three-byte window that holds the 24-bit value `p`, most
/// significant byte first; zero outside the window.
pub open spec fn burst_byte(p: u32, m: int) -> u8 {
    if m == 0 {
        (p >> 16u32) as u8
    } else if m == 1 {
        (p >> 8u32) as u8
    } else if m == 2 {
        p as u8
    } else {
        0
    }
}

/// Fed into the zero register, a window that holds a non-zero 16-bit
/// pattern shifted left by 1 to 8 bits leaves a non-zero register.
proof fn lemma_window_nonzero(burst: u16, shift: u32)
    requires
        1 <= shift <= 8,
        burst != 0,
    ensures
        crc_update(
            0,
            seq![
                burst_byte((burst as u32) << shift, 0),
                burst_byte((burst as u32) << shift, 1),
                burst_byte((burst as u32) << shift, 2),
            ],
        ) != 0,
{
    let p: u32 = (burst as u32) << shift;
    let b0 = burst_byte(p, 0);
    let b1 = burst_byte(p, 1);
    let b2 = burst_byte(p, 2);
    let w = seq![b0, b1, b2];
    assert(w.drop_last() =~= seq![b0, b1]);
    assert(seq![b0, b1].drop_last() =~= seq![b0]);
    assert(seq![b0].drop_last() =~= Seq::<u8>::empty());
    let r0 = crc_feed(0, b0);
    let r1 = crc_feed(r0, b1);
    assert(crc_update(0, Seq::<u8>::empty()) == 0);
    assert(seq![b0].last() == b0);
    assert(crc_update(0, seq![b0]) == r0);
    assert(crc_update(0, seq![b0, b1]) == r1);
    assert(crc_update(0, w) == crc_feed(r1, b2));
    // The register after the window, as steps of each byte.
    let s0 = crc_shift_n(b0 as u16, 16);
    let s1 = crc_shift_n(b1 as u16, 16);
    let s2 = crc_shift_n(b2 as u16, 16);
    lemma_feed_split(0, b0);
    lemma_shift_n_zero(8);
    assert(0u16 ^ s0 == s0) by (bit_vector);
    lemma_feed_split(r0, b1);
    lemma_shift_n_add(b0 as u16, 16, 8);
    lemma_feed_split(r1, b2);
    lemma_shift_n_xor(crc_shift_n(b0 as u16, 24), s1, 8);
    lemma_shift_n_add(b0 as u16, 24, 8);
    lemma_shift_n_add(b1 as u16, 16, 8);
    assert(crc_update(0, w) == crc_shift_n(b0 as u16, 32) ^ crc_shift_n(b1 as u16, 24) ^ s2);
    // The pattern, split where it crosses out of the register.
    let hi_part: u16 = ((b0 as u32) << ((16 - shift) as u32)) as u16;
    let lo_part: u16 = ((((b1 as u32) << 8u32) | (b2 as u32)) >> shift) as u16;
    let low16: u16 = ((b1 as u16) << 8u16) ^ (b2 as u16);
    assert(burst == hi_part ^ lo_part && (lo_part as u32) >> ((16 - shift) as u32) == 0 && ((lo_part as u32)
        << shift) as u16 == low16 && (b0 as u32) >> ((16 - (16 - shift)) as u32) == 0 && (b1 as u32) >> ((16
        - 8u32) as u32) == 0 && (((b1 as u16) as u32) << 8u32) as u16 == (b1 as u16) << 8u16) by (bit_vector)
        requires
            1 <= shift <= 8,
            p == (burst as u32) << shift,
            b0 == (p >> 16u32) as u8,
            b1 == (p >> 8u32) as u8,
            b2 == p as u8,
            hi_part == ((b0 as u32) << ((16 - shift) as u32)) as u16,
            lo_part == ((((b1 as u32) << 8u32) | (b2 as u32)) >> shift) as u16,
            low16 == ((b1 as u16) << 8u16) ^ (b2 as u16),
    ;
    lemma_shift_n_small(lo_part, shift);
    lemma_shift_n_small(b0 as u16, (16 - shift) as u32);
    lemma_shift_n_add(b0 as u16, (16 - shift) as nat, shift as nat);
    lemma_shift_n_xor(hi_part, lo_part, shift as nat);
    // So the first `shift` steps of the pattern give the window's register
    // before its last sixteen steps.
    let mid = crc_shift_n(burst, shift as nat);
    assert(mid == s0 ^ low16);
    lemma_shift_n_small(b1 as u16, 8);
    lemma_shift_n_xor(s0, low16, 16);
    lemma_shift_n_xor((b1 as u16) << 8u16, b2 as u16, 16);
    lemma_shift_n_add(b0 as u16, 16, 16);
    lemma_shift_n_add(b1 as u16, 8, 16);
    let t0 = crc_shift_n(b0 as u16, 32);
    let t1 = crc_shift_n(b1 as u16, 24);
    assert(crc_shift_n(s0, 16) == t0);
    assert(crc_shift_n((b1 as u16) << 8u16, 16) == t1);
    assert(crc_shift_n(low16, 16) == t1 ^ s2);
    assert(crc_shift_n(mid, 16) == t0 ^ (t1 ^ s2));
    assert(t0 ^ (t1 ^ s2) == t0 ^ t1 ^ s2) by (bit_vector);
    assert(crc_shift_n(mid, 16) == crc_update(0, w));
    lemma_shift_n_add(burst, shift as nat, 16);
    lemma_shift_n_injective(burst, 0, shift as nat + 16);
    lemma_shift_n_zero(shift as nat + 16);
}


/// The CRC detects every burst error of up to 16 bits: when two byte
/// sequences of the same length differ only within one run of at most 16
/// consecutive bits, their CRCs differ.
///
/// The run is given as the non-zero 16-bit pattern `burst` of the changed
/// bits, laid into the three bytes starting at byte `start`, shifted left by
/// `shift` bits (1 to 8) from the end of those three bytes: byte `start + m`
/// of the two sequences differs by `burst_byte(burst << shift, m)`, and
/// every other byte is equal. Every run of at most 16 bits that begins
/// within the data has this form, and the part of the window beyond the end
/// of the data must then be free of changed bits.
pub proof fn lemma_crc_detects_bursts(d1: Seq<u8>, d2: Seq<u8>, start: int, burst: u16, shift: u32)
    requires
        d1.len() == d2.len(),
        0 <= start < d1.len(),
        1 <= shift <= 8,
        burst != 0,
        forall|i: int|
            0 <= i < d1.len() ==> #[trigger] (d1[i] ^ d2[i]) == burst_byte((burst as u32) << shift, i - start),
        forall|m: int| 0 <= m < 3 && start + m >= d1.len() ==> #[trigger] burst_byte((burst as u32) << shift, m) == 0,
    ensures
        crc16(d1) != crc16(d2),
{
    let p: u32 = (burst as u32) << shift;
    let e = xor_bytes(d1, d2);
    let w = seq![burst_byte(p, 0), burst_byte(p, 1), burst_byte(p, 2)];
    let n = d1.len();
    // The difference, padded with three zero bytes, is the window between zeros.
    let padded = e + zero_bytes(3);
    assert(padded =~= zero_bytes(start as nat) + w + zero_bytes((n - start) as nat)) by {
        assert forall|i: int| 0 <= i < padded.len() implies padded[i] == (zero_bytes(start as nat) + w
            + zero_bytes((n - start) as nat))[i] by {
            if i < n {
                assert(padded[i] == d1[i] ^ d2[i]);
            }
        }
    }
    lemma_update_xor(CRC16_INIT, CRC16_INIT, d1, d2);
    assert(CRC16_INIT ^ CRC16_INIT == 0u16) by (bit_vector);
    lemma_window_nonzero(burst, shift);
    lemma_update_zeros(start as nat);
    lemma_crc_update_concat(0, zero_bytes(start as nat), w);
    lemma_crc_update_concat(0, zero_bytes(start as nat) + w, zero_bytes((n - start) as nat));
    lemma_update_zeros((n - start) as nat);
    lemma_update_injective(crc_update(0, w), 0, zero_bytes((n - start) as nat));
    lemma_crc_update_concat(0, e, zero_bytes(3));
    lemma_update_zeros(3);
    let c1 = crc16(d1);
    let c2 = crc16(d2);
    if c1 == c2 {
        assert(c1 ^ c2 == 0u16) by (bit_vector)
            requires
                c1 == c2,
        ;
        assert(crc_update(0, e) == 0);
        assert(crc_update(0, padded) == 0);
    }
}


// ── Bursts stated bit by bit ─────────────────────────────────────────────────

/// Bit `p` of `data`, counting from the most significant bit of the first
/// byte (the order in which the CRC takes the bits in).
pub open spec fn bit_at(data: Seq<u8>, p: int) -> u8 {
    (data[p / 8] >> ((7 - p % 8) as u8)) & 1u8
}

/// Whether bytes `x` and `y` agree in bit `k`, counting from the most
/// significant bit.
pub open spec fn bit_eq(x: u8, y: u8, k: u8) -> bool {
    (x >> ((7 - k) as u8)) & 1u8 == (y >> ((7 - k) as u8)) & 1u8
}

/// Whether `x` and `y` agree in every bit whose position (from the most
/// significant bit) lies outside `lo..hi`.
pub open spec fn agree_outside(x: u8, y: u8, lo: u8, hi: u8) -> bool {
    &&& (0 < lo || 0 >= hi ==> bit_eq(x, y, 0))
    &&& (1 < lo || 1 >= hi ==> bit_eq(x, y, 1))
    &&& (2 < lo || 2 >= hi ==> bit_eq(x, y, 2))
    &&& (3 < lo || 3 >= hi ==> bit_eq(x, y, 3))
    &&& (4 < lo || 4 >= hi ==> bit_eq(x, y, 4))
    &&& (5 < lo || 5 >= hi ==> bit_eq(x, y, 5))
    &&& (6 < lo || 6 >= hi ==> bit_eq(x, y, 6))
    &&& (7 < lo || 7 >= hi ==> bit_eq(x, y, 7))
}

/// Bytes that agree outside the bit positions `lo..hi` differ only in the
/// matching value bits.
proof fn lemma_byte_agreement(x: u8, y: u8, lo: u8, hi: u8)
    by (bit_vector)
    requires
        lo <= 8,
        hi <= 8,
        agree_outside(x, y, lo, hi),
    ensures
        ((x ^ y) as u32) >> ((8 - lo) as u32) == 0,
        (((x ^ y) as u32) >> ((8 - hi) as u32)) << ((8 - hi) as u32) == (x ^ y) as u32,
        lo >= hi ==> x == y,
{
}

/// Bit `8 * i + k` is bit `k` of byte `i`.
proof fn lemma_bit_at(data: Seq<u8>, i: int, k: u8)
    requires
        0 <= i < data.len(),
        k < 8,
    ensures
        bit_at(data, 8 * i + k) == (data[i] >> ((7 - k) as u8)) & 1u8,
{
    assert((8 * i + k) / 8 == i && (8 * i + k) % 8 == k as int) by (nonlinear_arith)
        requires
            0 <= k < 8,
    ;
}

/// The pattern of changed bits in a three-byte window, when the first byte
/// holds changes only in its low `shift` bits and the last only above them.
proof fn lemma_window_pattern(w0: u8, w1: u8, w2: u8, shift: u32, p: u32, b: u16)
    by (bit_vector)
    requires
        1 <= shift <= 8,
        (w0 as u32) >> shift == 0,
        ((w2 as u32) >> shift) << shift == w2 as u32,
        p == ((w0 as u32) << 16u32) | ((w1 as u32) << 8u32) | (w2 as u32),
        b == (p >> shift) as u16,
    ensures
        (((b as u32) << shift) >> 16u32) as u8 == w0,
        (((b as u32) << shift) >> 8u32) as u8 == w1,
        ((b as u32) << shift) as u8 == w2,
        b == 0 ==> w0 == 0 && w1 == 0 && w2 == 0,
{
}

/// The CRC detects every burst error of up to 16 bits: two byte sequences
/// of the same length that differ, and differ only in bits (counted from the
/// most significant bit of the first byte) from `first` to `first + 15`,
/// have different CRCs.
pub proof fn lemma_crc_detects_bit_bursts(d1: Seq<u8>, d2: Seq<u8>, first: int)
    requires
        d1.len() == d2.len(),
        d1 != d2,
        0 <= first,
        forall|p: int|
            0 <= p < 8 * d1.len() && #[trigger] bit_at(d1, p) != bit_at(d2, p) ==> first <= p < first + 16,
    ensures
        crc16(d1) != crc16(d2),
{
    let n = d1.len() as int;
    let j = first / 8;
    let o = first % 8;
    // Bytes `i` and the bit positions of `first..first + 16` within them.
    assert forall|i: int, k: u8|
        0 <= i < n && k < 8 && !(first <= 8 * i + k < first + 16) implies #[trigger] bit_eq(d1[i], d2[i], k) by {
        lemma_bit_at(d1, i, k);
        lemma_bit_at(d2, i, k);
    }
    // Some bit differs, so the run starts within the data.
    let i0 = choose|i: int| 0 <= i < n && d1[i] != d2[i];
    assert(exists|i: int| 0 <= i < n && d1[i] != d2[i]) by {
        if forall|i: int| 0 <= i < n ==> d1[i] == d2[i] {
            assert(d1 =~= d2);
        }
    }
    assert(j < n) by {
        if j >= n {
            assert(agree_outside(d1[i0], d2[i0], 0, 0));
            lemma_byte_agreement(d1[i0], d2[i0], 0, 0);
        }
    }
    // Outside the window of three bytes from `j`, nothing changed.
    assert forall|i: int| 0 <= i < n && (i < j || i > j + 2) implies #[trigger] d1[i] ^ d2[i] == 0u8 by {
        assert(agree_outside(d1[i], d2[i], 0, 0));
        lemma_byte_agreement(d1[i], d2[i], 0, 0);
        let x = d1[i];
        let y = d2[i];
        assert(x ^ y == 0u8) by (bit_vector)
            requires
                x == y,
        ;
    }
    let shift: u32 = (8 - o) as u32;
    let ou: u8 = o as u8;
    let w0: u8 = d1[j] ^ d2[j];
    let w1: u8 = if j + 1 < n { d1[j + 1] ^ d2[j + 1] } else { 0u8 };
    let w2: u8 = if j + 2 < n { d1[j + 2] ^ d2[j + 2] } else { 0u8 };
    assert(agree_outside(d1[j], d2[j], ou, 8));
    lemma_byte_agreement(d1[j], d2[j], ou, 8);
    assert(((w2 as u32) >> shift) << shift == w2 as u32) by {
        if j + 2 < n {
            assert(agree_outside(d1[j + 2], d2[j + 2], 0, ou));
            lemma_byte_agreement(d1[j + 2], d2[j + 2], 0, ou);
        } else {
            assert(((0u8 as u32) >> shift) << shift == 0u8 as u32) by (bit_vector);
        }
    }
    let p: u32 = ((w0 as u32) << 16u32) | ((w1 as u32) << 8u32) | (w2 as u32);
    let b: u16 = (p >> shift) as u16;
    lemma_window_pattern(w0, w1, w2, shift, p, b);
    let q: u32 = (b as u32) << shift;
    assert(b != 0) by {
        if b == 0 {
            if i0 == j + 1 {
                assert(w1 == d1[i0] ^ d2[i0]);
            } else if i0 == j + 2 {
                assert(w2 == d1[i0] ^ d2[i0]);
            }
            let x = d1[i0];
            let y = d2[i0];
            assert(x ^ y != 0u8) by (bit_vector)
                requires
                    x != y,
            ;
        }
    }
    assert forall|i: int| 0 <= i < n implies #[trigger] (d1[i] ^ d2[i]) == burst_byte(q, i - j) by {
        if i < j || i > j + 2 {
        }
    }
    lemma_crc_detects_bursts(d1, d2, j, b, shift);
}

} // verus!
