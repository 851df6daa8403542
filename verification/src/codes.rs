//! Character-level encoders shared by the printing and settings flows:
//! hex strings to bytes, accent stripping for receipt layout, voucher codes,
//! and a CODE128 set-B bar pattern encoder.

use vstd::prelude::*;
use crate::errors::PosError;

verus! {

/// Why an encoder rejected its input.
#[derive(Clone, Copy, Debug, PartialEq, Eq, Structural)]
pub enum CodeError {
    /// A hex string has an odd number of digits once spaces are removed.
    OddLength,
    /// A character is not a hexadecimal digit.
    InvalidHexDigit,
    /// A character is outside the CODE128 set B range of 32..=127.
    UnsupportedChar,
}

/// The value of one hexadecimal digit, if the character is one.
pub open spec fn hex_digit_val(c: char) -> Option<u8> {
    if 48 <= c as u32 <= 57 {
        Some(((c as u32) - 48) as u8)
    } else if 65 <= c as u32 <= 70 {
        Some(((c as u32) - 55) as u8)
    } else if 97 <= c as u32 <= 102 {
        Some(((c as u32) - 87) as u8)
    } else {
        None
    }
}

/// The string with every space removed.
pub open spec fn strip_spaces(s: Seq<char>) -> Seq<char>
    decreases s.len(),
{
    if s.len() == 0 {
        Seq::empty()
    } else if s.last() == ' ' {
        strip_spaces(s.drop_last())
    } else {
        strip_spaces(s.drop_last()).push(s.last())
    }
}

/// A hex string is acceptable when, after removing spaces, it has an even
/// number of characters, all of them hex digits.
pub open spec fn hex_ok(s: Seq<char>) -> bool {
    &&& strip_spaces(s).len() % 2 == 0
    &&& forall|i: int| 0 <= i < strip_spaces(s).len() ==> hex_digit_val(#[trigger] strip_spaces(s)[i]) is Some
}

/// The bytes encoded by an even-length sequence of hex digits, two digits
/// per byte, most significant first.
pub open spec fn hex_decoded(t: Seq<char>) -> Seq<u8>
    decreases t.len(),
{
    if t.len() < 2 {
        Seq::empty()
    } else {
        hex_decoded(t.drop_last().drop_last()).push(
            (hex_digit_val(t[t.len() - 2]).unwrap_or(0) * 16 + hex_digit_val(
                t[t.len() - 1],
            ).unwrap_or(0)) as u8,
        )
    }
}

/// Exec value of one hex digit, matching `hex_digit_val`.
fn hex_digit(c: char) -> (r: Option<u8>)
    ensures
        r == hex_digit_val(c),
{
    let v: u32 = c as u32;
    if 48 <= v && v <= 57 {
        Some((v - 48) as u8)
    } else if 65 <= v && v <= 70 {
        Some((v - 55) as u8)
    } else if 97 <= v && v <= 102 {
        Some((v - 87) as u8)
    } else {
        None
    }
}

/// Decodes a hex string, ignoring spaces, into its bytes.
///
/// Succeeds exactly when the string, spaces removed, holds an even number
/// of hex digits; the result pairs the digits most significant first.
pub fn hex_to_bytes(hex: &str) -> (r: Result<Vec<u8>, CodeError>)
    ensures
        r is Ok <==> hex_ok(hex@),
        r matches Ok(bs) ==> bs@ == hex_decoded(strip_spaces(hex@)),
        r matches Err(e) ==> (e is OddLength && strip_spaces(hex@).len() % 2 != 0) || (e
            is InvalidHexDigit && (exists|i: int|
            0 <= i < strip_spaces(hex@).len() && hex_digit_val(
                #[trigger] strip_spaces(hex@)[i],
            ) is None)),
{
    let n: usize = hex.unicode_len();
    let mut stripped: Vec<char> = Vec::new();
    let mut i: usize = 0;
    proof {
        assert(hex@.take(0) =~= Seq::<char>::empty());
    }
    while i < n
        invariant
            0 <= i <= n,
            n == hex@.len(),
            stripped@ == strip_spaces(hex@.take(i as int)),
        decreases n - i,
    {
        proof {
            assert(hex@.take(i + 1).drop_last() =~= hex@.take(i as int));
            assert(hex@.take(i + 1).last() == hex@[i as int]);
        }
        let c: char = hex.get_char(i);
        if c != ' ' {
            stripped.push(c);
        }
        i += 1;
    }
    proof {
        assert(hex@.take(n as int) =~= hex@);
    }

    let m: usize = stripped.len();
    if m % 2 != 0 {
        return Err(CodeError::OddLength);
    }
    let mut out: Vec<u8> = Vec::new();
    let mut j: usize = 0;
    proof {
        assert(stripped@.take(0) =~= Seq::<char>::empty());
    }
    while j + 1 < m
        invariant
            0 <= j <= m,
            j % 2 == 0,
            m % 2 == 0,
            m == stripped@.len(),
            stripped@ == strip_spaces(hex@),
            out@ == hex_decoded(stripped@.take(j as int)),
            forall|q: int| 0 <= q < j ==> hex_digit_val(#[trigger] stripped@[q]) is Some,
        decreases m - j,
    {
        let hi = hex_digit(stripped[j]);
        let lo = hex_digit(stripped[j + 1]);
        match (hi, lo) {
            (Some(h), Some(l)) => {
                proof {
                    assert(stripped@.take(j + 2).drop_last().drop_last() =~= stripped@.take(
                        j as int,
                    ));
                    assert(stripped@.take(j + 2)[j + 1] == stripped@[j + 1]);
                    assert(stripped@.take(j + 2)[j as int] == stripped@[j as int]);
                }
                out.push(h * 16 + l);
            },
            _ => {
                return Err(CodeError::InvalidHexDigit);
            },
        }
        j += 2;
    }
    proof {
        assert(j == m);
        assert(stripped@.take(m as int) =~= stripped@);
    }
    Ok(out)
}

/// The accent-stripped form of one character: vowels with acute accents and
/// the tilded n map to their bare letters, other ASCII stays, anything else
/// becomes a question mark.
pub open spec fn spec_unaccent(c: char) -> char {
    if c == '\u{e1}' || c == '\u{c1}' {
        'a'
    } else if c == '\u{e9}' || c == '\u{c9}' {
        'e'
    } else if c == '\u{ed}' || c == '\u{cd}' {
        'i'
    } else if c == '\u{f3}' || c == '\u{d3}' {
        'o'
    } else if c == '\u{fa}' || c == '\u{da}' {
        'u'
    } else if c == '\u{f1}' || c == '\u{d1}' {
        'n'
    } else if (c as u32) < 128 {
        c
    } else {
        '?'
    }
}

/// Relies on String::from_utf8: a vector of bytes below 128 is valid UTF-8
/// and decodes to the string whose characters are exactly those bytes.
#[verifier::external_body]
fn ascii_to_string(bytes: Vec<u8>) -> (r: String)
    requires
        forall|i: int| 0 <= i < bytes@.len() ==> bytes@[i] < 128,
    ensures
        r@.len() == bytes@.len(),
        forall|i: int| 0 <= i < bytes@.len() ==> r@[i] == bytes@[i] as char,
{
    match String::from_utf8(bytes) {
        Ok(s) => s,
        Err(_) => String::new(),
    }
}

/// Replaces accented characters by their bare letters and any other
/// non-ASCII character by a question mark, for printer alignment.
pub fn remove_accents(s: &str) -> (r: String)
    ensures
        r@.len() == s@.len(),
        forall|i: int| 0 <= i < s@.len() ==> r@[i] == spec_unaccent(#[trigger] s@[i]),
{
    let n: usize = s.unicode_len();
    let mut bytes: Vec<u8> = Vec::new();
    let mut i: usize = 0;
    while i < n
        invariant
            0 <= i <= n,
            n == s@.len(),
            bytes@.len() == i,
            forall|q: int| 0 <= q < i ==> bytes@[q] < 128,
            forall|q: int| 0 <= q < i ==> bytes@[q] as char == spec_unaccent(#[trigger] s@[q]),
        decreases n - i,
    {
        let c: char = s.get_char(i);
        let v: u32 = c as u32;
        let b: u8 = if v == 0xe1 || v == 0xc1 {
            97
        } else if v == 0xe9 || v == 0xc9 {
            101
        } else if v == 0xed || v == 0xcd {
            105
        } else if v == 0xf3 || v == 0xd3 {
            111
        } else if v == 0xfa || v == 0xda {
            117
        } else if v == 0xf1 || v == 0xd1 {
            110
        } else if v < 128 {
            v as u8
        } else {
            63
        };
        bytes.push(b);
        i += 1;
    }
    ascii_to_string(bytes)
}

/// The voucher code derived from a sale folio.
pub open spec fn spec_voucher_code(folio: Seq<char>) -> Seq<char> {
    seq!['V'] + folio
}

/// Derives the store-voucher code from the sale folio: the folio prefixed
/// with a V.
pub fn generate_voucher_code(sale_folio: &str) -> (r: String)
    ensures
        r@ == spec_voucher_code(sale_folio@),
{
    proof {
        reveal_strlit("V");
    }
    let mut r = String::new();
    r.append("V");
    r.append(sale_folio);
    proof {
        assert(r@ =~= spec_voucher_code(sale_folio@));
    }
    r
}

/// Every character is within the CODE128 set B range.
pub open spec fn code128_ok(s: Seq<char>) -> bool {
    forall|i: int| 0 <= i < s.len() ==> 32 <= (#[trigger] s[i]) as u32 <= 127
}

/// The six bar and space widths of one CODE128 symbol; every symbol spans
/// eleven modules.
fn code128_pattern(v: u8) -> (r: [u8; 6])
    requires
        v < 107,
    ensures
        r@.len() == 6,
        r[0] + r[1] + r[2] + r[3] + r[4] + r[5] == 11,
        forall|i: int| 0 <= i < 6 ==> 1 <= #[trigger] r@[i] <= 4,
{
    if v == 0 {
        [2, 1, 2, 2, 2, 2]
    } else if v == 1 {
        [2, 2, 2, 1, 2, 2]
    } else if v == 2 {
        [2, 2, 2, 2, 2, 1]
    } else if v == 3 {
        [1, 2, 1, 2, 2, 3]
    } else if v == 4 {
        [1, 2, 1, 3, 2, 2]
    } else if v == 5 {
        [1, 3, 1, 2, 2, 2]
    } else if v == 6 {
        [1, 2, 2, 2, 1, 3]
    } else if v == 7 {
        [1, 2, 2, 3, 1, 2]
    } else if v == 8 {
        [1, 3, 2, 2, 1, 2]
    } else if v == 9 {
        [2, 2, 1, 2, 1, 3]
    } else if v == 10 {
        [2, 2, 1, 3, 1, 2]
    } else if v == 11 {
        [2, 3, 1, 2, 1, 2]
    } else if v == 12 {
        [1, 1, 2, 2, 3, 2]
    } else if v == 13 {
        [1, 2, 2, 1, 3, 2]
    } else if v == 14 {
        [1, 2, 2, 2, 3, 1]
    } else if v == 15 {
        [1, 1, 3, 2, 2, 2]
    } else if v == 16 {
        [1, 2, 3, 1, 2, 2]
    } else if v == 17 {
        [1, 2, 3, 2, 2, 1]
    } else if v == 18 {
        [2, 2, 3, 2, 1, 1]
    } else if v == 19 {
        [2, 2, 1, 1, 3, 2]
    } else if v == 20 {
        [2, 2, 1, 2, 3, 1]
    } else if v == 21 {
        [2, 1, 3, 2, 1, 2]
    } else if v == 22 {
        [2, 2, 3, 1, 1, 2]
    } else if v == 23 {
        [3, 1, 2, 1, 3, 1]
    } else if v == 24 {
        [3, 1, 1, 2, 2, 2]
    } else if v == 25 {
        [3, 2, 1, 1, 2, 2]
    } else if v == 26 {
        [3, 2, 1, 2, 2, 1]
    } else if v == 27 {
        [3, 1, 2, 2, 1, 2]
    } else if v == 28 {
        [3, 2, 2, 1, 1, 2]
    } else if v == 29 {
        [3, 2, 2, 2, 1, 1]
    } else if v == 30 {
        [2, 1, 2, 1, 2, 3]
    } else if v == 31 {
        [2, 1, 2, 3, 2, 1]
    } else if v == 32 {
        [2, 3, 2, 1, 2, 1]
    } else if v == 33 {
        [1, 1, 1, 3, 2, 3]
    } else if v == 34 {
        [1, 3, 1, 1, 2, 3]
    } else if v == 35 {
        [1, 3, 1, 3, 2, 1]
    } else if v == 36 {
        [1, 1, 2, 3, 1, 3]
    } else if v == 37 {
        [1, 3, 2, 1, 1, 3]
    } else if v == 38 {
        [1, 3, 2, 3, 1, 1]
    } else if v == 39 {
        [2, 1, 1, 3, 1, 3]
    } else if v == 40 {
        [2, 3, 1, 1, 1, 3]
    } else if v == 41 {
        [2, 3, 1, 3, 1, 1]
    } else if v == 42 {
        [1, 1, 2, 1, 3, 3]
    } else if v == 43 {
        [1, 1, 2, 3, 3, 1]
    } else if v == 44 {
        [1, 3, 2, 1, 3, 1]
    } else if v == 45 {
        [1, 1, 3, 1, 2, 3]
    } else if v == 46 {
        [1, 1, 3, 3, 2, 1]
    } else if v == 47 {
        [1, 3, 3, 1, 2, 1]
    } else if v == 48 {
        [3, 1, 3, 1, 2, 1]
    } else if v == 49 {
        [2, 1, 1, 3, 3, 1]
    } else if v == 50 {
        [2, 3, 1, 1, 3, 1]
    } else if v == 51 {
        [2, 1, 3, 1, 1, 3]
    } else if v == 52 {
        [2, 1, 3, 3, 1, 1]
    } else if v == 53 {
        [2, 1, 3, 1, 3, 1]
    } else if v == 54 {
        [3, 1, 1, 1, 2, 3]
    } else if v == 55 {
        [3, 1, 1, 3, 2, 1]
    } else if v == 56 {
        [3, 3, 1, 1, 2, 1]
    } else if v == 57 {
        [3, 1, 2, 1, 1, 3]
    } else if v == 58 {
        [3, 1, 2, 3, 1, 1]
    } else if v == 59 {
        [3, 3, 2, 1, 1, 1]
    } else if v == 60 {
        [3, 1, 4, 1, 1, 1]
    } else if v == 61 {
        [2, 2, 1, 4, 1, 1]
    } else if v == 62 {
        [4, 3, 1, 1, 1, 1]
    } else if v == 63 {
        [1, 1, 1, 2, 2, 4]
    } else if v == 64 {
        [1, 1, 1, 4, 2, 2]
    } else if v == 65 {
        [1, 2, 1, 1, 2, 4]
    } else if v == 66 {
        [1, 2, 1, 4, 2, 1]
    } else if v == 67 {
        [1, 4, 1, 1, 2, 2]
    } else if v == 68 {
        [1, 4, 1, 2, 2, 1]
    } else if v == 69 {
        [1, 1, 2, 2, 1, 4]
    } else if v == 70 {
        [1, 1, 2, 4, 1, 2]
    } else if v == 71 {
        [1, 2, 2, 1, 1, 4]
    } else if v == 72 {
        [1, 2, 2, 4, 1, 1]
    } else if v == 73 {
        [1, 4, 2, 1, 1, 2]
    } else if v == 74 {
        [1, 4, 2, 2, 1, 1]
    } else if v == 75 {
        [2, 4, 1, 2, 1, 1]
    } else if v == 76 {
        [2, 2, 1, 1, 1, 4]
    } else if v == 77 {
        [4, 1, 3, 1, 1, 1]
    } else if v == 78 {
        [2, 4, 1, 1, 1, 2]
    } else if v == 79 {
        [1, 3, 4, 1, 1, 1]
    } else if v == 80 {
        [1, 1, 1, 2, 4, 2]
    } else if v == 81 {
        [1, 2, 1, 1, 4, 2]
    } else if v == 82 {
        [1, 2, 1, 2, 4, 1]
    } else if v == 83 {
        [1, 1, 4, 2, 1, 2]
    } else if v == 84 {
        [1, 2, 4, 1, 1, 2]
    } else if v == 85 {
        [1, 2, 4, 2, 1, 1]
    } else if v == 86 {
        [4, 1, 1, 2, 1, 2]
    } else if v == 87 {
        [4, 2, 1, 1, 1, 2]
    } else if v == 88 {
        [4, 2, 1, 2, 1, 1]
    } else if v == 89 {
        [2, 1, 2, 1, 4, 1]
    } else if v == 90 {
        [2, 1, 4, 1, 2, 1]
    } else if v == 91 {
        [4, 1, 2, 1, 2, 1]
    } else if v == 92 {
        [1, 1, 1, 1, 4, 3]
    } else if v == 93 {
        [1, 1, 1, 3, 4, 1]
    } else if v == 94 {
        [1, 3, 1, 1, 4, 1]
    } else if v == 95 {
        [1, 1, 4, 1, 1, 3]
    } else if v == 96 {
        [1, 1, 4, 3, 1, 1]
    } else if v == 97 {
        [4, 1, 1, 1, 1, 3]
    } else if v == 98 {
        [4, 1, 1, 3, 1, 1]
    } else if v == 99 {
        [1, 1, 3, 1, 4, 1]
    } else if v == 100 {
        [1, 1, 4, 1, 3, 1]
    } else if v == 101 {
        [3, 1, 1, 1, 4, 1]
    } else if v == 102 {
        [4, 1, 1, 1, 3, 1]
    } else if v == 103 {
        [2, 1, 1, 4, 1, 2]
    } else if v == 104 {
        [2, 1, 1, 2, 1, 4]
    } else if v == 105 {
        [2, 1, 1, 2, 3, 2]
    } else {
        [2, 3, 3, 1, 1, 1]
    }
}

/// Appends `w` copies of `bit` to the bar vector.
fn push_run(bars: &mut Vec<u8>, bit: u8, w: u8)
    requires
        bit == 0 || bit == 1,
    ensures
        final(bars)@.len() == old(bars)@.len() + w,
        forall|i: int| 0 <= i < old(bars)@.len() ==> final(bars)@[i] == old(bars)@[i],
        forall|i: int|
            old(bars)@.len() <= i < final(bars)@.len() ==> final(bars)@[i] == bit,
{
    let mut k: u8 = 0;
    while k < w
        invariant
            0 <= k <= w,
            bit == 0 || bit == 1,
            bars@.len() == old(bars)@.len() + k,
            forall|i: int| 0 <= i < old(bars)@.len() ==> bars@[i] == old(bars)@[i],
            forall|i: int| old(bars)@.len() <= i < bars@.len() ==> bars@[i] == bit,
        decreases w - k,
    {
        bars.push(bit);
        k += 1;
    }
}

/// Appends one symbol's eleven modules: six alternating runs of bars and
/// spaces, starting with a bar.
fn emit_pattern(bars: &mut Vec<u8>, v: u8)
    requires
        v < 107,
    ensures
        final(bars)@.len() == old(bars)@.len() + 11,
        forall|i: int| 0 <= i < old(bars)@.len() ==> final(bars)@[i] == old(bars)@[i],
        forall|i: int|
            old(bars)@.len() <= i < final(bars)@.len() ==> (final(bars)@[i] == 0
                || final(bars)@[i] == 1),
{
    let p = code128_pattern(v);
    push_run(bars, 1, p[0]);
    push_run(bars, 0, p[1]);
    push_run(bars, 1, p[2]);
    push_run(bars, 0, p[3]);
    push_run(bars, 1, p[4]);
    push_run(bars, 0, p[5]);
}

/// Encodes a string as CODE128 set B bar modules: a one for each black
/// module and a zero for each white one, with a ten-module quiet zone on
/// either side, the set B start symbol, one symbol per character, a
/// checksum symbol and the thirteen-module stop pattern.
///
/// Succeeds exactly when every character is in the set B range 32..=127;
/// the result then holds `55 + 11 x len` modules.
pub fn encode_code128b(data: &str) -> (r: Result<Vec<u8>, CodeError>)
    requires
        data@.len() <= 100_000,
    ensures
        r is Ok <==> code128_ok(data@),
        r matches Ok(bars) ==> bars@.len() == 55 + 11 * data@.len() && (forall|i: int|
            0 <= i < bars@.len() ==> #[trigger] bars@[i] == 0 || bars@[i] == 1),
{
    let n: usize = data.unicode_len();
    let mut values: Vec<u8> = Vec::new();
    let mut i: usize = 0;
    while i < n
        invariant
            0 <= i <= n,
            n == data@.len(),
            values@.len() == i,
            forall|q: int| 0 <= q < i ==> 32 <= (#[trigger] data@[q]) as u32 <= 127,
            forall|q: int| 0 <= q < i ==> #[trigger] values@[q] < 96,
        decreases n - i,
    {
        let c: char = data.get_char(i);
        let v: u32 = c as u32;
        if v < 32 || v > 127 {
            return Err(CodeError::UnsupportedChar);
        }
        values.push((v - 32) as u8);
        i += 1;
    }

    // Checksum over the start symbol and the weighted data symbols.
    let mut checksum: u64 = 104;
    let mut j: usize = 0;
    while j < n
        invariant
            0 <= j <= n,
            n == values@.len() <= 100_000,
            forall|q: int| 0 <= q < n ==> #[trigger] values@[q] < 96,
            checksum <= 104 + (j as u64) * 9_600_000,
        decreases n - j,
    {
        proof {
            vstd::arithmetic::mul::lemma_mul_upper_bound(
                values@[j as int] as int,
                96,
                (j + 1) as int,
                100_000,
            );
            vstd::arithmetic::mul::lemma_mul_is_distributive_add_other_way(
                9_600_000,
                j as int,
                1,
            );
        }
        let term: u64 = (values[j] as u64) * ((j as u64) + 1);
        checksum = checksum + term;
        j += 1;
    }
    let check_sym: u64 = checksum % 103;

    let mut bars: Vec<u8> = Vec::new();
    // Quiet zone.
    push_run(&mut bars, 0, 10);
    // Start symbol for set B.
    emit_pattern(&mut bars, 104);
    let mut t: usize = 0;
    while t < n
        invariant
            0 <= t <= n,
            n == values@.len(),
            forall|q: int| 0 <= q < n ==> #[trigger] values@[q] < 96,
            bars@.len() == 21 + 11 * t,
            forall|i2: int| 0 <= i2 < bars@.len() ==> #[trigger] bars@[i2] == 0 || bars@[i2] == 1,
        decreases n - t,
    {
        emit_pattern(&mut bars, values[t]);
        t += 1;
    }
    emit_pattern(&mut bars, (check_sym as u8));
    // Stop pattern: thirteen modules.
    push_run(&mut bars, 1, 2);
    push_run(&mut bars, 0, 3);
    push_run(&mut bars, 1, 3);
    push_run(&mut bars, 0, 1);
    push_run(&mut bars, 1, 1);
    push_run(&mut bars, 0, 1);
    push_run(&mut bars, 1, 2);
    // Trailing quiet zone.
    push_run(&mut bars, 0, 10);
    Ok(bars)
}

} // verus!
