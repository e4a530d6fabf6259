//! Human-readable text: decimal counters, hex dumps, clock times and the
//! dashboard's defaults. Text is built as ASCII bytes and handed to `core`'s
//! UTF-8 check, which the proofs show always succeeds on it.

use vstd::prelude::*;
use vstd::utf8::{decode_utf8, encode_utf8, encode_utf8_decode_utf8, encode_utf8_valid_utf8, is_ascii_chars, is_ascii_chars_encode_utf8, valid_utf8};

verus! {

// ── Text, as mathematics ─────────────────────────────────────────────────────

/// The ASCII digit for `d` (0–9).
pub open spec fn digit(d: nat) -> char {
    (48 + d) as char
}

/// `n` in decimal, without leading zeros ("0" for zero).
pub open spec fn decimal(n: nat) -> Seq<char>
    decreases n,
{
    if n < 10 {
        seq![digit(n)]
    } else {
        decimal(n / 10).push(digit(n % 10))
    }
}

/// `n` (below 100) in decimal, padded with a leading zero to two digits.
pub open spec fn two_digits(n: nat) -> Seq<char> {
    seq![digit(n / 10), digit(n % 10)]
}

/// The lower-case hex digit for `v` (0–15).
pub open spec fn hex_digit(v: nat) -> char {
    if v < 10 {
        (48 + v) as char
    } else {
        (87 + v) as char
    }
}

/// A byte as two lower-case hex digits.
pub open spec fn hex_pair(b: u8) -> Seq<char> {
    seq![hex_digit(b as nat / 16), hex_digit(b as nat % 16)]
}

/// The bytes as lower-case hex pairs separated by single spaces.
pub open spec fn hex_spaced(bytes: Seq<u8>) -> Seq<char>
    decreases bytes.len(),
{
    if bytes.len() == 0 {
        seq![]
    } else if bytes.len() == 1 {
        hex_pair(bytes[0])
    } else {
        hex_spaced(bytes.drop_last()) + seq![' '] + hex_pair(bytes.last())
    }
}

/// The bytes of ASCII text.
pub open spec fn ascii_bytes(text: Seq<char>) -> Seq<u8> {
    text.map_values(|c: char| c as u8)
}

/// The bytes of joined text are the joined bytes.
pub broadcast proof fn lemma_ascii_bytes_concat(a: Seq<char>, b: Seq<char>)
    ensures
        #[trigger] ascii_bytes(a + b) == ascii_bytes(a) + ascii_bytes(b),
{
    assert(ascii_bytes(a + b) =~= ascii_bytes(a) + ascii_bytes(b));
}

/// Most bytes that a hex dump shows.
pub const HEX_DUMP_MAX_BYTES: usize = 32;

/// The text "RX: ".
pub open spec fn rx_label() -> Seq<char> {
    seq!['R', 'X', ':', ' ']
}

/// The time of day of a Unix timestamp: "HH:MM:SS UTC".
pub open spec fn hms_text(secs: nat) -> Seq<char> {
    two_digits((secs / 3600) % 24) + seq![':'] + two_digits((secs / 60) % 60) + seq![':']
        + two_digits(secs % 60) + seq![' ', 'U', 'T', 'C']
}

/// Decimal digits are ASCII.
pub proof fn lemma_decimal_ascii(n: nat)
    ensures
        is_ascii_chars(decimal(n)),
        decimal(n).len() >= 1,
    decreases n,
{
    if n >= 10 {
        lemma_decimal_ascii(n / 10);
        let d = decimal(n);
        assert forall|i: int| 0 <= i < d.len() implies '\0' <= #[trigger] d[i] <= '\u{7f}' by {
            if i < d.len() - 1 {
                assert(d[i] == decimal(n / 10)[i]);
            }
        }
    }
}

/// Ten to the power `k`.
pub open spec fn pow10(k: nat) -> nat
    decreases k,
{
    if k == 0 {
        1
    } else {
        10 * pow10((k - 1) as nat)
    }
}

/// A number below `10^k` has at most `k` decimal digits.
pub proof fn lemma_decimal_len(n: nat, k: nat)
    requires
        k >= 1,
        n < pow10(k),
    ensures
        decimal(n).len() <= k,
    decreases k,
{
    if n >= 10 {
        let p = pow10((k - 1) as nat);
        assert(n / 10 < p) by (nonlinear_arith)
            requires
                n < 10 * p,
        ;
        if k == 1 {
            assert(pow10(0) == 1);
        } else {
            lemma_decimal_len(n / 10, (k - 1) as nat);
        }
    }
}

/// A `u32` has at most 10 decimal digits.
pub proof fn lemma_decimal_len_u32(n: u32)
    ensures
        decimal(n as nat).len() <= 10,
{
    reveal_with_fuel(pow10, 11);
    assert(pow10(10) == 10000000000);
    lemma_decimal_len(n as nat, 10);
}

/// For ASCII text, its bytes are its UTF-8 encoding.
pub proof fn lemma_ascii_utf8(text: Seq<char>)
    requires
        is_ascii_chars(text),
    ensures
        ascii_bytes(text) == encode_utf8(text),
        valid_utf8(ascii_bytes(text)),
        decode_utf8(ascii_bytes(text)) == text,
{
    is_ascii_chars_encode_utf8(text);
    assert(ascii_bytes(text) =~= encode_utf8(text));
    encode_utf8_valid_utf8(text);
    encode_utf8_decode_utf8(text);
}

// ── Building text ────────────────────────────────────────────────────────────

/// `core::str::from_utf8`: the bytes as a string slice when they are valid
/// UTF-8, and then the characters they encode.
#[verifier::external_body]
pub(crate) fn str_from_utf8(bytes: &[u8]) -> (r: Result<&str, core::str::Utf8Error>)
    ensures
        r is Ok <==> valid_utf8(bytes@),
        r matches Ok(s) ==> s@ == decode_utf8(bytes@),
{
    core::str::from_utf8(bytes)
}

/// `core::str::Utf8Error`, the error of the UTF-8 check.
#[verifier::external_type_specification]
#[verifier::external_body]
pub struct ExUtf8Error(core::str::Utf8Error);

/// The string slice for bytes of ASCII text.
pub(crate) fn ascii_str<'a>(bytes: &'a [u8], Ghost(text): Ghost<Seq<char>>) -> (r: &'a str)
    requires
        is_ascii_chars(text),
        bytes@ == ascii_bytes(text),
    ensures
        r@ == text,
{
    proof {
        lemma_ascii_utf8(text);
    }
    match str_from_utf8(bytes) {
        Ok(s) => s,
        Err(_) => "",
    }
}

/// Append `n` in decimal to `out`.
pub(crate) fn push_decimal(out: &mut Vec<u8>, n: u64)
    ensures
        final(out)@ == old(out)@ + ascii_bytes(decimal(n as nat)),
    decreases n,
{
    if n >= 10 {
        push_decimal(out, n / 10);
    }
    out.push((48 + n % 10) as u8);
    proof {
        let d = (n % 10) as nat;
        assert(((48 + d) as char) as u8 == (48 + d) as u8);
        if n >= 10 {
            assert(decimal(n as nat) == decimal((n / 10) as nat).push(digit(d)));
        }
        assert(out@ =~= old(out)@ + ascii_bytes(decimal(n as nat)));
    }
}

/// Append `n` (below 100) as two decimal digits to `out`.
pub(crate) fn push_two_digits(out: &mut Vec<u8>, n: u64)
    requires
        n < 100,
    ensures
        final(out)@ == old(out)@ + ascii_bytes(two_digits(n as nat)),
{
    out.push((48 + n / 10) as u8);
    out.push((48 + n % 10) as u8);
    assert(out@ =~= old(out)@ + ascii_bytes(two_digits(n as nat)));
}

/// Copy `bytes` to the front of `buf`.
fn copy_to_front<const N: usize>(buf: &mut [u8; N], bytes: &[u8])
    requires
        bytes@.len() <= N,
    ensures
        final(buf)@ == bytes@ + old(buf)@.skip(bytes@.len() as int),
{
    let mut i: usize = 0;
    while i < bytes.len()
        invariant
            bytes@.len() <= N,
            i <= bytes@.len(),
            buf@.len() == N,
            forall|j: int| 0 <= j < i ==> buf@[j] == bytes@[j],
            forall|j: int| i <= j < N ==> buf@[j] == old(buf)@[j],
        decreases bytes@.len() - i,
    {
        buf[i] = bytes[i];
        i = i + 1;
    }
    assert(buf@ =~= bytes@ + old(buf)@.skip(bytes@.len() as int));
}

/// Format "RX: {count}" into `buf` without heap allocation on the device.
pub fn fmt_count<'a>(buf: &'a mut [u8; 16], count: u32) -> (r: &'a str)
    ensures
        r@ == rx_label() + decimal(count as nat),
        final(buf)@ == ascii_bytes(r@) + old(buf)@.skip(r@.len() as int),
{
    let mut text: Vec<u8> = Vec::new();
    text.push(82u8);
    text.push(88u8);
    text.push(58u8);
    text.push(32u8);
    push_decimal(&mut text, count as u64);
    proof {
        lemma_decimal_len_u32(count);
        lemma_decimal_ascii(count as nat);
        assert(text@ =~= ascii_bytes(rx_label() + decimal(count as nat)));
        assert(is_ascii_chars(rx_label() + decimal(count as nat)));
    }
    copy_to_front(buf, text.as_slice());
    let n: usize = text.len();
    let whole: &'a [u8; 16] = buf;
    let used = vstd::slice::slice_subrange(vstd::array::array_as_slice(whole), 0, n);
    assert(used@ =~= text@);
    ascii_str(used, Ghost(rx_label() + decimal(count as nat)))
}


/// Hex dumps are ASCII, three characters per byte less the last space.
pub proof fn lemma_hex_spaced(bytes: Seq<u8>)
    ensures
        is_ascii_chars(hex_spaced(bytes)),
        bytes.len() > 0 ==> hex_spaced(bytes).len() == 3 * bytes.len() - 1,
        bytes.len() == 0 ==> hex_spaced(bytes).len() == 0,
    decreases bytes.len(),
{
    if bytes.len() > 1 {
        lemma_hex_spaced(bytes.drop_last());
        let h = hex_spaced(bytes);
        let p = hex_spaced(bytes.drop_last());
        assert forall|i: int| 0 <= i < h.len() implies '\0' <= #[trigger] h[i] <= '\u{7f}' by {
            if i < p.len() {
                assert(h[i] == p[i]);
            }
        }
    }
}

/// The hex digit byte for `v` (0–15).
pub(crate) fn hex_digit_byte(v: u8) -> (r: u8)
    requires
        v < 16,
    ensures
        r == hex_digit(v as nat) as u8,
{
    if v < 10 {
        48 + v
    } else {
        87 + v
    }
}

/// Format bytes as space-separated lower-case hex into `buf`: the first 32
/// bytes at most, which take all 95 characters.
pub fn fmt_hex<'a>(buf: &'a mut [u8; 95], data: &[u8]) -> (r: &'a str)
    ensures
        data@.len() <= HEX_DUMP_MAX_BYTES ==> r@ == hex_spaced(data@),
        data@.len() > HEX_DUMP_MAX_BYTES ==> r@ == hex_spaced(data@.take(HEX_DUMP_MAX_BYTES as int)),
        final(buf)@ == ascii_bytes(r@) + old(buf)@.skip(r@.len() as int),
{
    let n: usize = if data.len() <= HEX_DUMP_MAX_BYTES { data.len() } else { HEX_DUMP_MAX_BYTES };
    let mut text: Vec<u8> = Vec::with_capacity(95);
    let mut i: usize = 0;
    while i < n
        invariant
            n <= data@.len(),
            n <= HEX_DUMP_MAX_BYTES,
            i <= n,
            text@ == ascii_bytes(hex_spaced(data@.take(i as int))),
        decreases n - i,
    {
        let ghost before = data@.take(i as int);
        let b: u8 = data[i];
        if i > 0 {
            text.push(32u8);
        }
        text.push(hex_digit_byte(b / 16));
        text.push(hex_digit_byte(b % 16));
        proof {
            let after = data@.take(i + 1);
            assert(after.drop_last() =~= before);
            assert(after.last() == b);
            if i == 0 {
                assert(hex_spaced(after) == hex_pair(b));
            }
            assert(text@ =~= ascii_bytes(hex_spaced(after)));
        }
        i = i + 1;
    }
    let ghost shown = data@.take(n as int);
    proof {
        lemma_hex_spaced(shown);
        if data@.len() <= HEX_DUMP_MAX_BYTES {
            assert(shown =~= data@);
        }
    }
    copy_to_front(buf, text.as_slice());
    let len: usize = text.len();
    let whole: &'a [u8; 95] = buf;
    let used = vstd::slice::slice_subrange(vstd::array::array_as_slice(whole), 0, len);
    assert(used@ =~= text@);
    ascii_str(used, Ghost(hex_spaced(shown)))
}

/// The time of day of a Unix timestamp, as "HH:MM:SS UTC".
pub fn hms_utc(secs: u64) -> (r: String)
    ensures
        r@ == hms_text(secs as nat),
{
    let mut text: Vec<u8> = Vec::new();
    push_two_digits(&mut text, (secs / 3600) % 24);
    text.push(58u8);
    push_two_digits(&mut text, (secs / 60) % 60);
    text.push(58u8);
    push_two_digits(&mut text, secs % 60);
    text.push(32u8);
    text.push(85u8);
    text.push(84u8);
    text.push(67u8);
    let ghost t = hms_text(secs as nat);
    proof {
        assert(text@ =~= ascii_bytes(t));
        assert(is_ascii_chars(t));
    }
    ascii_str(text.as_slice(), Ghost(t)).to_owned()
}


/// Append the ASCII string `s` to `out`.
pub(crate) fn push_str(out: &mut Vec<u8>, s: &str)
    requires
        is_ascii_chars(s@),
    ensures
        final(out)@ == old(out)@ + ascii_bytes(s@),
{
    let bytes = s.as_bytes();
    proof {
        lemma_ascii_utf8(s@);
    }
    let mut i: usize = 0;
    while i < bytes.len()
        invariant
            bytes@ == ascii_bytes(s@),
            i <= bytes@.len(),
            out@ == old(out)@ + bytes@.take(i as int),
        decreases bytes@.len() - i,
    {
        out.push(bytes[i]);
        i = i + 1;
        assert(out@ =~= old(out)@ + bytes@.take(i as int));
    }
    assert(bytes@.take(bytes@.len() as int) =~= bytes@);
}

} // verus!
