//! Encodes a string as the data bit stream of a symbol: mode indicator,
//! character count, data bits, terminator and padding. Error correction is
//! added elsewhere.
use crate::bits::{append, bits_value, int_bits, max_bits, zero_bits, BitVec};
use crate::ec_level::ECLevel;
use crate::error::Error;
use crate::info::{total_bits, total_bits_of};
use crate::mode::{is_alphanumeric_code, is_numeric_code, Mode};
use crate::tables::{block_field, capacity_of, lemma_block_layout};
use crate::version::{char_count_bits, Version};
use vstd::prelude::*;
use vstd::string::StringSliceAdditionalSpecFns;
use vstd::utf8::{is_ascii_chars, is_ascii_chars_encode_utf8};

verus! {

/// The value of an alphanumeric character, by its code point: the digits are
/// 0 to 9, the letters 10 to 35, then space and `$%*+-./:` are 36 to 44.
pub open spec fn alphanumeric_value(c: int) -> int {
    if 48 <= c <= 57 {
        c - 48
    } else if 65 <= c <= 90 {
        c - 55
    } else if c == 32 {
        36
    } else if c == 36 {
        37
    } else if c == 37 {
        38
    } else if c == 42 {
        39
    } else if c == 43 {
        40
    } else if c == 45 {
        41
    } else if c == 46 {
        42
    } else if c == 47 {
        43
    } else {
        44
    }
}

/// The symbols that a string is encoded from: the digits in numeric mode, the
/// character values in alphanumeric mode, the bytes of the string in byte
/// mode.
pub open spec fn symbols(s: &str, mode: Mode) -> Seq<u8> {
    match mode {
        Mode::Numeric => Seq::new(s@.len(), |i: int| (s@[i] as int - 48) as u8),
        Mode::Alphanumeric => Seq::new(s@.len(), |i: int| alphanumeric_value(s@[i] as int) as u8),
        Mode::Byte => s.spec_bytes(),
    }
}

/// The number that `n` leading digits (at most three) stand for.
pub open spec fn digits_value(d: Seq<u8>, n: int) -> u32 {
    if n == 1 {
        d[0] as u32
    } else if n == 2 {
        (10 * d[0] + d[1]) as u32
    } else {
        (100 * d[0] + 10 * d[1] + d[2]) as u32
    }
}

/// The data bits of digits: each group of three is a number of ten bits, a
/// last group of two one of seven bits, a last single digit one of four bits.
pub open spec fn numeric_bits(d: Seq<u8>) -> Seq<bool>
    decreases d.len(),
{
    if d.len() == 0 {
        Seq::empty()
    } else if d.len() == 1 {
        int_bits(digits_value(d, 1), 4)
    } else if d.len() == 2 {
        int_bits(digits_value(d, 2), 7)
    } else {
        int_bits(digits_value(d, 3), 10) + numeric_bits(d.skip(3))
    }
}

/// The data bits of alphanumeric values: each pair is the number
/// `45 * first + second` in eleven bits, a last single value has six bits.
pub open spec fn alphanumeric_bits(d: Seq<u8>) -> Seq<bool>
    decreases d.len(),
{
    if d.len() == 0 {
        Seq::empty()
    } else if d.len() == 1 {
        int_bits(d[0] as u32, 6)
    } else {
        int_bits((45 * d[0] + d[1]) as u32, 11) + alphanumeric_bits(d.skip(2))
    }
}

/// The data bits of bytes: eight bits each.
pub open spec fn byte_bits(d: Seq<u8>) -> Seq<bool>
    decreases d.len(),
{
    if d.len() == 0 {
        Seq::empty()
    } else {
        int_bits(d[0] as u32, 8) + byte_bits(d.skip(1))
    }
}

/// The data bits of symbols in a mode.
pub open spec fn data_bits(d: Seq<u8>, mode: Mode) -> Seq<bool> {
    match mode {
        Mode::Numeric => numeric_bits(d),
        Mode::Alphanumeric => alphanumeric_bits(d),
        Mode::Byte => byte_bits(d),
    }
}

/// How many data bits `n` symbols take in a mode.
pub open spec fn data_bits_len(n: int, mode: Mode) -> int {
    match mode {
        Mode::Numeric => 10 * (n / 3) + if n % 3 == 1 {
            4int
        } else if n % 3 == 2 {
            7int
        } else {
            0int
        },
        Mode::Alphanumeric => 11 * (n / 2) + 6 * (n % 2),
        Mode::Byte => 8 * n,
    }
}

/// How many bits the mode indicator, the character count and the data of `n`
/// symbols take together.
pub open spec fn payload_len(n: int, mode: Mode, v: int) -> int {
    4 + char_count_bits(v, mode) + data_bits_len(n, mode)
}

/// The mode indicator, the character count and the data bits of symbols.
pub open spec fn payload(d: Seq<u8>, mode: Mode, v: int) -> Seq<bool> {
    int_bits(mode.indicator(), 4) + int_bits(d.len() as u32, char_count_bits(v, mode))
        + data_bits(d, mode)
}

/// The pad byte at position `j`: 0xEC and 0x11 in turn.
pub open spec fn pad_byte(j: int) -> u32 {
    if j % 2 == 0 {
        0xEC
    } else {
        0x11
    }
}

/// The bits of the first `k` pad bytes.
pub open spec fn pad_bits(k: int) -> Seq<bool>
    decreases k,
{
    if k <= 0 {
        Seq::empty()
    } else {
        pad_bits(k - 1) + int_bits(pad_byte(k - 1), 8)
    }
}

/// How many zero bits end the payload: four, or fewer where the stream has
/// no room for four.
pub open spec fn terminator_len(len: int, total: int) -> int {
    if total - len < 4 {
        total - len
    } else {
        4
    }
}

/// A payload with its terminator and with zero bits up to a whole byte.
pub open spec fn aligned(p: Seq<bool>, total: int) -> Seq<bool> {
    let t = terminator_len(p.len() as int, total);
    p + zero_bits(t) + zero_bits((total - p.len() - t) % 8)
}

/// A payload brought to `total` bits: terminator, zero bits up to a whole
/// byte, then pad bytes.
pub open spec fn padded(p: Seq<bool>, total: int) -> Seq<bool> {
    aligned(p, total) + pad_bits((total - aligned(p, total).len()) / 8)
}

/// The data bit stream of a string in a mode, for a version and a level.
pub open spec fn encoded(s: &str, mode: Mode, v: int, e: ECLevel) -> Seq<bool> {
    padded(payload(symbols(s, mode), mode, v), total_bits_of(v, e))
}

/// The digit that a decimal character stands for.
pub fn convert_numeric(b: u8) -> (r: u8)
    requires
        is_numeric_code(b as int),
    ensures
        r == b - 48,
        r <= 9,
{
    b - 48
}

/// The value of an alphanumeric character.
pub fn convert_alphanumeric(c: char) -> (r: u8)
    requires
        is_alphanumeric_code(c as int),
    ensures
        r == alphanumeric_value(c as int),
        r <= 44,
{
    match c {
        '0' => 0,
        '1' => 1,
        '2' => 2,
        '3' => 3,
        '4' => 4,
        '5' => 5,
        '6' => 6,
        '7' => 7,
        '8' => 8,
        '9' => 9,
        'A' => 10,
        'B' => 11,
        'C' => 12,
        'D' => 13,
        'E' => 14,
        'F' => 15,
        'G' => 16,
        'H' => 17,
        'I' => 18,
        'J' => 19,
        'K' => 20,
        'L' => 21,
        'M' => 22,
        'N' => 23,
        'O' => 24,
        'P' => 25,
        'Q' => 26,
        'R' => 27,
        'S' => 28,
        'T' => 29,
        'U' => 30,
        'V' => 31,
        'W' => 32,
        'X' => 33,
        'Y' => 34,
        'Z' => 35,
        ' ' => 36,
        '$' => 37,
        '%' => 38,
        '*' => 39,
        '+' => 40,
        '-' => 41,
        '.' => 42,
        '/' => 43,
        _ => 44,
    }
}

/// Converts a string to the symbols of a mode, or fails where the mode
/// cannot represent the string.
pub fn string_to_bytes(s: &str, mode: Mode) -> (r: Result<Vec<u8>, Error>)
    ensures
        match r {
            Ok(v) => mode.represents(s@) && v@ == symbols(s, mode),
            Err(e) => e == Error::UnsupportedCharacter && !mode.represents(s@),
        },
{
    if !mode.matches(s) {
        return Err(Error::UnsupportedCharacter);
    }
    let bytes = s.as_bytes();
    let n: usize = bytes.len();
    let mut out: Vec<u8> = Vec::new();
    match mode {
        Mode::Byte => {
            let mut i: usize = 0;
            while i < n
                invariant
                    i <= n == bytes@.len(),
                    out@ == bytes@.subrange(0, i as int),
                decreases n - i,
            {
                out.push(bytes[i]);
                i = i + 1;
                assert(out@ =~= bytes@.subrange(0, i as int));
            }
            assert(bytes@.subrange(0, i as int) =~= bytes@);
        },
        Mode::Numeric => {
            proof {
                assert(is_ascii_chars(s@)) by {
                    assert forall|i: int| 0 <= i < s@.len() implies '\0' <= #[trigger] s@[i]
                        <= '\u{7f}' by {
                        assert(is_numeric_code(s@[i] as int));
                    }
                }
                is_ascii_chars_encode_utf8(s@);
            }
            let mut i: usize = 0;
            while i < n
                invariant
                    i <= n == bytes@.len(),
                    bytes@ == s.spec_bytes(),
                    s@.len() == n,
                    mode.represents(s@),
                    mode == Mode::Numeric,
                    forall|k: int| 0 <= k < n ==> #[trigger] s@[k] as u8 == bytes@[k],
                    out@.len() == i,
                    forall|k: int| 0 <= k < i ==> out@[k] == symbols(s, mode)[k],
                decreases n - i,
            {
                assert(is_numeric_code(s@[i as int] as int));
                out.push(convert_numeric(bytes[i]));
                i = i + 1;
            }
            assert(out@ =~= symbols(s, mode));
        },
        Mode::Alphanumeric => {
            proof {
                assert(is_ascii_chars(s@)) by {
                    assert forall|i: int| 0 <= i < s@.len() implies '\0' <= #[trigger] s@[i]
                        <= '\u{7f}' by {
                        assert(is_alphanumeric_code(s@[i] as int));
                    }
                }
                is_ascii_chars_encode_utf8(s@);
            }
            let mut i: usize = 0;
            while i < n
                invariant
                    i <= n == bytes@.len(),
                    bytes@ == s.spec_bytes(),
                    s@.len() == n,
                    mode.represents(s@),
                    mode == Mode::Alphanumeric,
                    forall|k: int| 0 <= k < n ==> #[trigger] s@[k] as u8 == bytes@[k],
                    out@.len() == i,
                    forall|k: int| 0 <= k < i ==> out@[k] == symbols(s, mode)[k],
                decreases n - i,
            {
                assert(is_alphanumeric_code(s@[i as int] as int));
                let c: char = bytes[i] as char;
                assert(c == s@[i as int]);
                out.push(convert_alphanumeric(c));
                i = i + 1;
            }
            assert(out@ =~= symbols(s, mode));
        },
    }
    Ok(out)
}

/// The data bits of digits: groups of three in ten bits, a last group of two
/// in seven bits, a last single digit in four bits.
pub fn encode_numeric_data(v: &Vec<u8>) -> (r: BitVec)
    requires
        4 * v@.len() <= max_bits(),
    ensures
        r@ == numeric_bits(v@),
        r@.len() == data_bits_len(v@.len() as int, Mode::Numeric),
{
    let n: usize = v.len();
    let mut bv = BitVec::new();
    let mut i: usize = 0;
    assert(v@.skip(0) =~= v@);
    while i < n
        invariant
            i <= n == v@.len(),
            4 * n <= max_bits(),
            bv@.len() <= 4 * i,
            bv@ + numeric_bits(v@.skip(i as int)) == numeric_bits(v@),
        decreases n - i,
    {
        let ghost rest = v@.skip(i as int);
        if n - i >= 3 {
            let num: u32 = 100 * (v[i] as u32) + 10 * (v[i + 1] as u32) + (v[i + 2] as u32);
            assert(num == digits_value(rest, 3));
            assert(rest.skip(3) =~= v@.skip(i + 3));
            append(&mut bv, num, 10);
            i = i + 3;
        } else if n - i == 2 {
            let num: u32 = 10 * (v[i] as u32) + (v[i + 1] as u32);
            assert(num == digits_value(rest, 2));
            append(&mut bv, num, 7);
            i = i + 2;
            assert(numeric_bits(v@.skip(i as int)) =~= Seq::<bool>::empty());
        } else {
            let num: u32 = v[i] as u32;
            assert(num == digits_value(rest, 1));
            append(&mut bv, num, 4);
            i = i + 1;
            assert(numeric_bits(v@.skip(i as int)) =~= Seq::<bool>::empty());
        }
        assert(bv@ + numeric_bits(v@.skip(i as int)) =~= numeric_bits(v@));
    }
    proof {
        assert(numeric_bits(v@.skip(i as int)) =~= Seq::<bool>::empty());
        assert(bv@ =~= numeric_bits(v@));
        lemma_data_bits_len(v@, Mode::Numeric);
    }
    bv
}

/// The data bits of alphanumeric values: pairs in eleven bits, a last single
/// value in six bits.
pub fn encode_alphanumeric_data(v: &Vec<u8>) -> (r: BitVec)
    requires
        6 * v@.len() <= max_bits(),
    ensures
        r@ == alphanumeric_bits(v@),
        r@.len() == data_bits_len(v@.len() as int, Mode::Alphanumeric),
{
    let n: usize = v.len();
    let mut bv = BitVec::new();
    let mut i: usize = 0;
    assert(v@.skip(0) =~= v@);
    while i < n
        invariant
            i <= n == v@.len(),
            6 * n <= max_bits(),
            bv@.len() <= 6 * i,
            bv@ + alphanumeric_bits(v@.skip(i as int)) == alphanumeric_bits(v@),
        decreases n - i,
    {
        let ghost rest = v@.skip(i as int);
        if n - i >= 2 {
            let num: u32 = 45 * (v[i] as u32) + (v[i + 1] as u32);
            assert(rest.skip(2) =~= v@.skip(i + 2));
            append(&mut bv, num, 11);
            i = i + 2;
        } else {
            let num: u32 = v[i] as u32;
            append(&mut bv, num, 6);
            i = i + 1;
            assert(alphanumeric_bits(v@.skip(i as int)) =~= Seq::<bool>::empty());
        }
        assert(bv@ + alphanumeric_bits(v@.skip(i as int)) =~= alphanumeric_bits(v@));
    }
    proof {
        assert(alphanumeric_bits(v@.skip(i as int)) =~= Seq::<bool>::empty());
        assert(bv@ =~= alphanumeric_bits(v@));
        lemma_data_bits_len(v@, Mode::Alphanumeric);
    }
    bv
}

/// The data bits of bytes: eight bits each.
pub fn encode_byte_data(v: &Vec<u8>) -> (r: BitVec)
    requires
        8 * v@.len() <= max_bits(),
    ensures
        r@ == byte_bits(v@),
        r@.len() == data_bits_len(v@.len() as int, Mode::Byte),
{
    let n: usize = v.len();
    let mut bv = BitVec::new();
    let mut i: usize = 0;
    assert(v@.skip(0) =~= v@);
    while i < n
        invariant
            i <= n == v@.len(),
            8 * n <= max_bits(),
            bv@.len() == 8 * i,
            bv@ + byte_bits(v@.skip(i as int)) == byte_bits(v@),
        decreases n - i,
    {
        let ghost rest = v@.skip(i as int);
        assert(rest.skip(1) =~= v@.skip(i + 1));
        append(&mut bv, v[i] as u32, 8);
        i = i + 1;
        assert(bv@ + byte_bits(v@.skip(i as int)) =~= byte_bits(v@));
    }
    proof {
        assert(byte_bits(v@.skip(i as int)) =~= Seq::<bool>::empty());
        assert(bv@ =~= byte_bits(v@));
        lemma_data_bits_len(v@, Mode::Byte);
    }
    bv
}

/// The character count field: `len` in as many bits as the version and the
/// mode ask for.
pub fn bitvec_char_count(len: usize, mode: Mode, v: Version) -> (r: BitVec)
    requires
        v.wf(),
    ensures
        r@ == int_bits(len as u32, char_count_bits(v.0 as int, mode)),
        r@.len() == char_count_bits(v.0 as int, mode),
{
    let mut bv = BitVec::new();
    append(&mut bv, len as u32, v.char_count_len(mode));
    assert(bv@ =~= int_bits(len as u32, char_count_bits(v.0 as int, mode)));
    bv
}

/// The data bits of symbols in a mode.
pub fn bitvec_data(symbols: &Vec<u8>, mode: Mode) -> (r: BitVec)
    requires
        8 * symbols@.len() <= max_bits(),
    ensures
        r@ == data_bits(symbols@, mode),
        r@.len() == data_bits_len(symbols@.len() as int, mode),
{
    match mode {
        Mode::Numeric => encode_numeric_data(symbols),
        Mode::Alphanumeric => encode_alphanumeric_data(symbols),
        Mode::Byte => encode_byte_data(symbols),
    }
}

/// How many data bits `n` symbols take in a mode.
pub fn data_len(n: usize, mode: Mode) -> (r: usize)
    requires
        8 * n <= usize::MAX,
    ensures
        r == data_bits_len(n as int, mode),
        r <= 8 * n,
{
    match mode {
        Mode::Numeric => {
            let rest: usize = if n % 3 == 1 {
                4
            } else if n % 3 == 2 {
                7
            } else {
                0
            };
            10 * (n / 3) + rest
        },
        Mode::Alphanumeric => 11 * (n / 2) + 6 * (n % 2),
        Mode::Byte => 8 * n,
    }
}

/// Brings a payload to `total` bits: up to four zero bits as terminator,
/// zero bits up to a whole byte, then the pad bytes 0xEC and 0x11 in turn.
pub fn pad_stream(bv: &mut BitVec, total: usize)
    requires
        old(bv)@.len() <= total <= max_bits(),
        total % 8 == 0,
    ensures
        final(bv)@ == padded(old(bv)@, total as int),
        final(bv)@.len() == total,
{
    let ghost p = bv@;
    let needed: usize = bv.len();
    // Add up to 4 zero bits if we are below capacity.
    let terminator: usize = if total - needed < 4 {
        total - needed
    } else {
        4
    };
    bv.pad_zeros(terminator);
    // If we are still below capacity add zero bits until we have full bytes.
    let len: usize = bv.len();
    let fill: usize = (total - len) % 8;
    bv.pad_zeros(fill);
    let ghost a = aligned(p, total as int);
    assert(bv@ =~= a);
    let start: usize = bv.len();
    assert((total - start) % 8 == 0);

    // Until we reach our capacity add pad bytes.
    let mut j: usize = 0;
    while bv.len() < total
        invariant
            start <= total <= max_bits(),
            (total - start) % 8 == 0,
            bv@ == a + pad_bits(j as int),
            bv@.len() == start + 8 * j,
            bv@.len() <= total,
        decreases total - bv@.len(),
    {
        let pad: u32 = if j % 2 == 0 {
            0xEC
        } else {
            0x11
        };
        append(bv, pad, 8);
        j = j + 1;
        assert(bv@ =~= a + pad_bits(j as int));
    }
    assert(j == (total - start) / 8);
}

/// Encode string data to a bit stream in a specific mode.
/// Does not include error correction codes, it only encodes the data portion.
///
/// Fails with `UnsupportedCharacter` where the mode cannot represent the
/// string, else with `CapacityExceeded` where mode indicator, character count
/// and data bits together are more than the symbol holds. The stream of a
/// success has exactly as many bits as the symbol holds, and its character
/// count field, which follows the four bits of the mode indicator, stands for
/// the count of symbols.
pub fn encode_with_mode(s: &str, mode: Mode, version: Version, ecl: ECLevel) -> (r: Result<
    BitVec,
    Error,
>)
    requires
        version.wf(),
    ensures
        match r {
            Ok(bv) => {
                &&& mode.represents(s@)
                &&& payload_len(symbols(s, mode).len() as int, mode, version.0 as int)
                    <= total_bits_of(version.0 as int, ecl)
                &&& bv@ == encoded(s, mode, version.0 as int, ecl)
                &&& bv@.len() == total_bits_of(version.0 as int, ecl)
                &&& bv@.subrange(0, 4) == int_bits(mode.indicator(), 4)
                &&& bv@.subrange(4, 4 + char_count_bits(version.0 as int, mode)) == int_bits(
                    symbols(s, mode).len() as u32,
                    char_count_bits(version.0 as int, mode),
                )
                &&& field_holds(
                    symbols(s, mode).len() as int,
                    char_count_bits(version.0 as int, mode),
                )
                &&& bits_value(bv@.subrange(4, 4 + char_count_bits(version.0 as int, mode)))
                    == symbols(s, mode).len()
            },
            Err(e) => if !mode.represents(s@) {
                e == Error::UnsupportedCharacter
            } else {
                e == Error::CapacityExceeded && payload_len(
                    symbols(s, mode).len() as int,
                    mode,
                    version.0 as int,
                ) > total_bits_of(version.0 as int, ecl)
            },
        },
{
    let converted = string_to_bytes(s, mode);
    let syms: Vec<u8> = match converted {
        Ok(v) => v,
        Err(e) => {
            return Err(e);
        },
    };
    let n: usize = syms.len();
    let total: usize = total_bits(version, ecl);
    // No symbol holds 8000 symbols: even as digits they take more bits than
    // the largest symbol has. The guard keeps the arithmetic below in range.
    if n > 8000 {
        return Err(Error::CapacityExceeded);
    }
    let needed: usize = 4 + version.char_count_len(mode) + data_len(n, mode);
    if needed > total {
        return Err(Error::CapacityExceeded);
    }
    proof {
        lemma_field_holds(n as int, mode, version.0 as int, ecl);
    }
    // Encoding is mode, char count, data.
    let mut bv = mode.to_bitvec();
    let mut count = bitvec_char_count(n, mode, version);
    bv.append(&mut count);
    let mut data = bitvec_data(&syms, mode);
    bv.append(&mut data);
    let ghost p = payload(syms@, mode, version.0 as int);
    assert(bv@ =~= p);
    assert(p.len() == needed);

    pad_stream(&mut bv, total);
    assert(bv@ == encoded(s, mode, version.0 as int, ecl));
    assert(bv@.subrange(0, 4) =~= int_bits(mode.indicator(), 4));
    assert(bv@.subrange(4, 4 + char_count_bits(version.0 as int, mode)) =~= int_bits(
        n as u32,
        char_count_bits(version.0 as int, mode),
    ));
    proof {
        crate::bits::lemma_int_bits_value(n as u32, char_count_bits(version.0 as int, mode));
    }
    Ok(bv)
}

/// Encode string data to a bit stream in the most compact mode that can
/// represent it. Does not include error correction codes, it only encodes
/// the data portion.
pub fn encode(s: &str, version: Version, ecl: ECLevel) -> (r: Result<(Mode, BitVec), Error>)
    requires
        version.wf(),
    ensures
        match r {
            Ok((mode, bv)) => {
                &&& mode == crate::mode::mode_for(s@)
                &&& payload_len(symbols(s, mode).len() as int, mode, version.0 as int)
                    <= total_bits_of(version.0 as int, ecl)
                &&& bv@ == encoded(s, mode, version.0 as int, ecl)
                &&& bv@.len() == total_bits_of(version.0 as int, ecl)
            },
            Err(e) => e == Error::CapacityExceeded && payload_len(
                symbols(s, crate::mode::mode_for(s@)).len() as int,
                crate::mode::mode_for(s@),
                version.0 as int,
            ) > total_bits_of(version.0 as int, ecl),
        },
{
    let mode = Mode::from_str(s);
    match encode_with_mode(s, mode, version, ecl) {
        Ok(bv) => Ok((mode, bv)),
        Err(e) => Err(e),
    }
}

/// Whether the number `n` can be written in `width` bits.
pub open spec fn field_holds(n: int, width: int) -> bool {
    0 <= n < vstd::arithmetic::power2::pow2(width as nat)
}

/// The data bits of symbols are as many as the mode's formula says.
pub proof fn lemma_data_bits_len(d: Seq<u8>, mode: Mode)
    ensures
        data_bits(d, mode).len() == data_bits_len(d.len() as int, mode),
    decreases d.len(),
{
    match mode {
        Mode::Numeric => {
            if d.len() >= 3 {
                lemma_data_bits_len(d.skip(3), mode);
            }
        },
        Mode::Alphanumeric => {
            if d.len() >= 2 {
                lemma_data_bits_len(d.skip(2), mode);
            }
        },
        Mode::Byte => {
            if d.len() >= 1 {
                lemma_data_bits_len(d.skip(1), mode);
            }
        },
    }
}

/// A count of symbols whose payload fits a symbol fits the character count
/// field of that symbol's version.
pub proof fn lemma_field_holds(n: int, mode: Mode, v: int, e: ECLevel)
    requires
        1 <= v <= 40,
        0 <= n,
        payload_len(n, mode, v) <= total_bits_of(v, e),
    ensures
        field_holds(n, char_count_bits(v, mode)),
{
    lemma_block_layout(v, e);
    vstd::arithmetic::power2::lemma2_to64();
}

/// A string has as many symbols in a mode that can represent it as it has
/// bytes.
pub proof fn lemma_symbols_len(s: &str, mode: Mode)
    requires
        mode.represents(s@),
    ensures
        symbols(s, mode).len() == s.spec_bytes().len(),
{
    match mode {
        Mode::Byte => {},
        Mode::Numeric => {
            assert(is_ascii_chars(s@)) by {
                assert forall|i: int| 0 <= i < s@.len() implies '\0' <= #[trigger] s@[i]
                    <= '\u{7f}' by {
                    assert(is_numeric_code(s@[i] as int));
                }
            }
            is_ascii_chars_encode_utf8(s@);
        },
        Mode::Alphanumeric => {
            assert(is_ascii_chars(s@)) by {
                assert forall|i: int| 0 <= i < s@.len() implies '\0' <= #[trigger] s@[i]
                    <= '\u{7f}' by {
                    assert(is_alphanumeric_code(s@[i] as int));
                }
            }
            is_ascii_chars_encode_utf8(s@);
        },
    }
}

} // verus!
