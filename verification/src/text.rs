//! Byte-to-text decoding and small string utilities.
//!
//! Attribute keys and values on the board are stored as bytes; this module
//! decodes them as UTF-8 (against vstd's UTF-8 specification) and trims the
//! NUL padding.

use vstd::prelude::*;

use vstd::utf8::char_u32_cast;
use vstd::utf8::decode_first_codepoint;
use vstd::utf8::decode_utf8;
use vstd::utf8::is_scalar;
use vstd::utf8::length_of_first_codepoint;
use vstd::utf8::pop_first_scalar;
use vstd::utf8::valid_first_scalar;
use vstd::utf8::valid_leading_and_continuation_bytes_first_codepoint;
use vstd::utf8::valid_utf8;

verus! {

/// Relies on std's `String::push`: appends the given character to the end
/// of the string.
#[verifier::external_body]
pub(crate) fn push_char(s: &mut String, c: char)
    ensures
        final(s)@ == old(s)@.push(c),
{
    s.push(c);
}

/// Relies on std's `char::from_u32`: `Some` exactly for values that are
/// Unicode scalars (at most 0x10FFFF and not in the surrogate range), and
/// the returned character carries that value.
#[verifier::external_body]
fn char_from_u32(v: u32) -> (r: Option<char>)
    ensures
        r is Some <==> is_scalar(v),
        r is Some ==> r->0 as u32 == v,
{
    char::from_u32(v)
}

/// Whether a byte is a UTF-8 continuation byte (`10xxxxxx`).
fn is_cont(b: u8) -> (r: bool)
    ensures
        r == vstd::utf8::is_continuation_byte(b),
{
    0x80 <= b && b <= 0xBF
}

/// Decode a byte run as UTF-8.  `None` exactly when the bytes are not a
/// valid UTF-8 encoding; otherwise the decoded characters.
pub fn utf8_to_string(raw: &[u8]) -> (r: Option<String>)
    ensures
        r is Some <==> valid_utf8(raw@),
        r is Some ==> r->0@ == decode_utf8(raw@),
{
    let n = raw.len();
    let mut out = String::new();
    let mut i: usize = 0;
    proof {
        assert(raw@.skip(0) =~= raw@);
    }
    while i < n
        invariant
            i <= n,
            n == raw@.len(),
            valid_utf8(raw@.skip(i as int)) ==> (valid_utf8(raw@) && decode_utf8(raw@) == out@
                + decode_utf8(raw@.skip(i as int))),
            !valid_utf8(raw@.skip(i as int)) ==> !valid_utf8(raw@),
        decreases n - i,
    {
        let ghost rest = raw@.skip(i as int);
        proof {
            assert(rest.len() == n - i);
            assert(forall|k: int| 0 <= k < rest.len() ==> rest[k] == raw@[i + k]);
        }
        let b0 = raw[i];
        let (len, cp): (usize, u32) = if b0 < 0x80 {
            (1, b0 as u32)
        } else if 0xC0 <= b0 && b0 <= 0xDF {
            if n - i < 2 || !is_cont(raw[i + 1]) {
                proof {
                    assert(!valid_leading_and_continuation_bytes_first_codepoint(rest));
                }
                return None;
            }
            let b1 = raw[i + 1];
            (2, (((b0 & 0x1F) as u32) << 6u32) | ((b1 & 0x3F) as u32))
        } else if 0xE0 <= b0 && b0 <= 0xEF {
            if n - i < 3 || !is_cont(raw[i + 1]) || !is_cont(raw[i + 2]) {
                proof {
                    assert(!valid_leading_and_continuation_bytes_first_codepoint(rest));
                }
                return None;
            }
            let b1 = raw[i + 1];
            let b2 = raw[i + 2];
            (
                3,
                (((b0 & 0x0F) as u32) << 12u32) | (((b1 & 0x3F) as u32) << 6u32) | ((b2
                    & 0x3F) as u32),
            )
        } else if 0xF0 <= b0 && b0 <= 0xF7 {
            if n - i < 4 || !is_cont(raw[i + 1]) || !is_cont(raw[i + 2]) || !is_cont(raw[i + 3]) {
                proof {
                    assert(!valid_leading_and_continuation_bytes_first_codepoint(rest));
                }
                return None;
            }
            let b1 = raw[i + 1];
            let b2 = raw[i + 2];
            let b3 = raw[i + 3];
            (
                4,
                (((b0 & 0x07) as u32) << 18u32) | (((b1 & 0x3F) as u32) << 12u32) | (((b2
                    & 0x3F) as u32) << 6u32) | ((b3 & 0x3F) as u32),
            )
        } else {
            proof {
                assert(!valid_leading_and_continuation_bytes_first_codepoint(rest));
            }
            return None;
        };
        proof {
            assert(valid_leading_and_continuation_bytes_first_codepoint(rest));
            assert(length_of_first_codepoint(rest) == len);
            let y0 = rest[0];
            if len == 1 {
                assert(vstd::utf8::codepoint_width_1(y0) == y0 as u32) by (bit_vector)
                    requires
                        y0 < 0x80,
                ;
            } else if len == 2 {
                let y1 = rest[1];
                assert(vstd::utf8::codepoint_width_2(y0, y1) == ((((y0 & 0x1F) as u32) << 6u32) | (
                (y1 & 0x3F) as u32))) by (bit_vector);
            } else if len == 3 {
                let y1 = rest[1];
                let y2 = rest[2];
                assert(vstd::utf8::codepoint_width_3(y0, y1, y2) == ((((y0 & 0x0F) as u32)
                    << 12u32) | (((y1 & 0x3F) as u32) << 6u32) | ((y2 & 0x3F) as u32)))
                    by (bit_vector);
            } else {
                let y1 = rest[1];
                let y2 = rest[2];
                let y3 = rest[3];
                assert(vstd::utf8::codepoint_width_4(y0, y1, y2, y3) == ((((y0 & 0x07) as u32)
                    << 18u32) | (((y1 & 0x3F) as u32) << 12u32) | (((y2 & 0x3F) as u32) << 6u32) | (
                (y3 & 0x3F) as u32))) by (bit_vector);
            }
            assert(decode_first_codepoint(rest) == cp);
        }
        if (len == 2 && cp < 0x80) || (len == 3 && cp < 0x800) || (len == 4 && !(0x10000 <= cp
            && cp <= 0x10FFFF)) {
            proof {
                assert(!vstd::utf8::not_overlong_encoding(cp, len as int));
            }
            return None;
        }
        if 0xD800 <= cp && cp <= 0xDFFF {
            return None;
        }
        proof {
            assert(valid_first_scalar(rest));
            if len == 1 {
                assert(cp <= 0x7F);
            } else if len == 2 {
                let x0 = raw@[i as int];
                let x1 = raw@[i + 1];
                assert((((x0 & 0x1F) as u32) << 6u32) | ((x1 & 0x3F) as u32) <= 0x7FF)
                    by (bit_vector);
            } else if len == 3 {
                let x0 = raw@[i as int];
                let x1 = raw@[i + 1];
                let x2 = raw@[i + 2];
                assert((((x0 & 0x0F) as u32) << 12u32) | (((x1 & 0x3F) as u32) << 6u32) | ((x2
                    & 0x3F) as u32) <= 0xFFFF) by (bit_vector);
            }
            assert(is_scalar(cp));
        }
        let ch = match char_from_u32(cp) {
            Some(c) => c,
            None => {
                proof {
                    assert(false);
                }
                return None;
            },
        };
        push_char(&mut out, ch);
        proof {
            char_u32_cast(ch, cp);
            assert(pop_first_scalar(rest) =~= raw@.skip(i + len));
            if valid_utf8(raw@.skip(i + len)) {
                assert(valid_utf8(rest));
                assert(decode_utf8(rest) == seq![cp as char] + decode_utf8(raw@.skip(i + len)));
                assert(out@ + decode_utf8(raw@.skip(i + len)) =~= out@.take(out@.len() - 1)
                    + decode_utf8(rest));
            } else {
                assert(!valid_utf8(rest));
            }
        }
        i += len;
    }
    proof {
        assert(raw@.skip(n as int) =~= Seq::<u8>::empty());
        assert(valid_utf8(Seq::<u8>::empty()));
        assert(out@ + decode_utf8(Seq::<u8>::empty()) =~= out@);
    }
    Some(out)
}

/// Decode a byte run known to be valid UTF-8.
pub fn bytes_to_string(raw: &[u8]) -> (r: String)
    requires
        valid_utf8(raw@),
    ensures
        r@ == decode_utf8(raw@),
{
    match utf8_to_string(raw) {
        Some(s) => s,
        None => {
            proof {
                assert(false);
            }
            String::new()
        },
    }
}

/// Length of the run of NUL bytes at the end of a byte run.
pub open spec fn trailing_nuls(s: Seq<u8>) -> nat
    decreases s.len(),
{
    if s.len() == 0 || s[s.len() - 1] != 0 {
        0
    } else {
        1 + trailing_nuls(s.take(s.len() - 1))
    }
}

/// Length of the run of NUL bytes at the start of a byte run.
pub open spec fn leading_nuls(s: Seq<u8>) -> nat
    decreases s.len(),
{
    if s.len() == 0 || s[0] != 0 {
        0
    } else {
        1 + leading_nuls(s.skip(1))
    }
}

/// A byte run with its trailing NUL padding removed.
pub open spec fn trim_end_nuls(s: Seq<u8>) -> Seq<u8> {
    s.take(s.len() - trailing_nuls(s))
}

/// A byte run with NUL padding removed from both ends.
pub open spec fn trim_nuls(s: Seq<u8>) -> Seq<u8> {
    trim_end_nuls(s).skip(leading_nuls(trim_end_nuls(s)) as int)
}

proof fn lemma_trailing_nuls_le_len(s: Seq<u8>)
    ensures
        trailing_nuls(s) <= s.len(),
    decreases s.len(),
{
    if s.len() > 0 && s[s.len() - 1] == 0 {
        lemma_trailing_nuls_le_len(s.take(s.len() - 1));
    }
}

proof fn lemma_leading_nuls_le_len(s: Seq<u8>)
    ensures
        leading_nuls(s) <= s.len(),
    decreases s.len(),
{
    if s.len() > 0 && s[0] == 0 {
        lemma_leading_nuls_le_len(s.skip(1));
    }
}

/// Index just after the last byte that is not part of the trailing NUL run.
fn trailing_nul_start(raw: &[u8]) -> (r: usize)
    ensures
        r == raw@.len() - trailing_nuls(raw@),
{
    let mut i: usize = raw.len();
    proof {
        assert(raw@.take(raw@.len() as int) =~= raw@);
    }
    while i > 0 && raw[i - 1] == 0
        invariant
            i <= raw@.len(),
            trailing_nuls(raw@) == raw@.len() - i + trailing_nuls(raw@.take(i as int)),
        decreases i,
    {
        proof {
            assert(raw@.take(i as int)[i - 1] == raw@[i - 1]);
            assert(raw@.take(i as int).take(i - 1) =~= raw@.take(i - 1));
        }
        i -= 1;
    }
    proof {
        if i > 0 {
            assert(raw@.take(i as int)[i - 1] == raw@[i - 1]);
            assert(trailing_nuls(raw@.take(i as int)) == 0);
        } else {
            assert(raw@.take(0) =~= Seq::<u8>::empty());
        }
    }
    i
}

/// A copy of the byte run with its trailing NUL padding removed.
pub fn trim_end_nuls_vec(raw: &[u8]) -> (r: Vec<u8>)
    ensures
        r@ == trim_end_nuls(raw@),
{
    proof {
        lemma_trailing_nuls_le_len(raw@);
    }
    let end = trailing_nul_start(raw);
    let mut out: Vec<u8> = Vec::new();
    let mut i: usize = 0;
    while i < end
        invariant
            i <= end <= raw@.len(),
            end == raw@.len() - trailing_nuls(raw@),
            out@ == raw@.subrange(0, i as int),
        decreases end - i,
    {
        out.push(raw[i]);
        proof {
            assert(raw@.subrange(0, i + 1) =~= raw@.subrange(0, i as int).push(raw@[i as int]));
        }
        i += 1;
    }
    proof {
        assert(raw@.subrange(0, end as int) =~= trim_end_nuls(raw@));
    }
    out
}

/// A copy of the byte run with NUL padding removed from both ends.
pub fn trim_nuls_vec(raw: &[u8]) -> (r: Vec<u8>)
    ensures
        r@ == trim_nuls(raw@),
{
    proof {
        lemma_trailing_nuls_le_len(raw@);
    }
    let end = trailing_nul_start(raw);
    let ghost trimmed = trim_end_nuls(raw@);
    let mut start: usize = 0;
    proof {
        lemma_leading_nuls_le_len(trimmed);
        assert(trimmed.skip(0) =~= trimmed);
    }
    while start < end && raw[start] == 0
        invariant
            start <= end <= raw@.len(),
            end == raw@.len() - trailing_nuls(raw@),
            trimmed == trim_end_nuls(raw@),
            leading_nuls(trimmed) == start + leading_nuls(trimmed.skip(start as int)),
        decreases end - start,
    {
        proof {
            assert(trimmed.skip(start as int)[0] == raw@[start as int]);
            assert(trimmed.skip(start as int).skip(1) =~= trimmed.skip(start + 1));
        }
        start += 1;
    }
    proof {
        if start < end {
            assert(trimmed.skip(start as int)[0] == raw@[start as int]);
            assert(leading_nuls(trimmed.skip(start as int)) == 0);
        } else {
            assert(trimmed.skip(start as int) =~= Seq::<u8>::empty());
        }
        assert(leading_nuls(trimmed) == start);
    }
    let mut out: Vec<u8> = Vec::new();
    let mut i: usize = start;
    while i < end
        invariant
            start <= i <= end <= raw@.len(),
            end == raw@.len() - trailing_nuls(raw@),
            trimmed == trim_end_nuls(raw@),
            start == leading_nuls(trimmed),
            out@ == raw@.subrange(start as int, i as int),
        decreases end - i,
    {
        out.push(raw[i]);
        proof {
            assert(raw@.subrange(start as int, i + 1) =~= raw@.subrange(
                start as int,
                i as int,
            ).push(raw@[i as int]));
        }
        i += 1;
    }
    proof {
        assert(raw@.subrange(start as int, end as int) =~= trim_nuls(raw@));
    }
    out
}

/// Whether two string slices hold the same characters.
pub fn str_eq(a: &str, b: &str) -> (r: bool)
    ensures
        r == (a@ == b@),
{
    let n = a.unicode_len();
    let m = b.unicode_len();
    if n != m {
        return false;
    }
    let mut i: usize = 0;
    while i < n
        invariant
            i <= n,
            n == a@.len() == b@.len(),
            forall|j: int| 0 <= j < i ==> a@[j] == b@[j],
        decreases n - i,
    {
        if a.get_char(i) != b.get_char(i) {
            return false;
        }
        i += 1;
    }
    proof {
        assert(a@ =~= b@);
    }
    true
}

/// The numeric value of one hexadecimal digit, or 16 for any other
/// character.
pub open spec fn hex_val(c: char) -> nat {
    let x = c as u32;
    if 48 <= x <= 57 {
        (x - 48) as nat
    } else if 97 <= x <= 102 {
        (x - 87) as nat
    } else if 65 <= x <= 70 {
        (x - 55) as nat
    } else {
        16
    }
}

pub open spec fn is_hex_digit(c: char) -> bool {
    hex_val(c) < 16
}

pub open spec fn all_hex(s: Seq<char>) -> bool {
    forall|j: int| 0 <= j < s.len() ==> is_hex_digit(#[trigger] s[j])
}

/// Value of the first `i` characters read as a big-endian hexadecimal
/// number.
pub open spec fn hex_prefix_val(s: Seq<char>, i: int) -> nat
    decreases i,
{
    if i <= 0 {
        0
    } else {
        hex_prefix_val(s, i - 1) * 16 + hex_val(s[i - 1])
    }
}

proof fn lemma_hex_prefix_monotone(s: Seq<char>, i: int, j: int)
    requires
        0 <= i <= j,
    ensures
        hex_prefix_val(s, i) <= hex_prefix_val(s, j),
    decreases j - i,
{
    if i < j {
        lemma_hex_prefix_monotone(s, i, j - 1);
        assert(hex_prefix_val(s, j) == hex_prefix_val(s, j - 1) * 16 + hex_val(s[j - 1]));
        assert(hex_prefix_val(s, j - 1) * 16 >= hex_prefix_val(s, j - 1)) by (nonlinear_arith);
    }
}

/// Parse a string of hexadecimal digits.  `None` exactly when the string is
/// empty, holds a non-digit, or encodes a value that does not fit in 64
/// bits.
pub fn parse_hex_u64(s: &str) -> (r: Option<u64>)
    ensures
        r is Some <==> (s@.len() > 0 && all_hex(s@) && hex_prefix_val(s@, s@.len() as int)
            < 0x1_0000_0000_0000_0000),
        r is Some ==> r->0 == hex_prefix_val(s@, s@.len() as int),
{
    let n = s.unicode_len();
    if n == 0 {
        return None;
    }
    let mut acc: u64 = 0;
    let mut i: usize = 0;
    while i < n
        invariant
            i <= n,
            n == s@.len(),
            all_hex(s@.take(i as int)),
            acc == hex_prefix_val(s@, i as int),
        decreases n - i,
    {
        let c = s.get_char(i);
        let x = c as u32;
        let d: u64 = if 48 <= x && x <= 57 {
            (x - 48) as u64
        } else if 97 <= x && x <= 102 {
            (x - 87) as u64
        } else if 65 <= x && x <= 70 {
            (x - 55) as u64
        } else {
            proof {
                assert(!is_hex_digit(s@[i as int]));
            }
            return None;
        };
        proof {
            assert(d == hex_val(s@[i as int]));
            assert(all_hex(s@.take(i + 1))) by {
                assert(forall|j: int|
                    0 <= j < i + 1 ==> is_hex_digit(#[trigger] s@.take(i + 1)[j]));
            }
        }
        if acc > (0xFFFF_FFFF_FFFF_FFFFu64 - d) / 16 {
            proof {
                assert(acc * 16 + d > 0xFFFF_FFFF_FFFF_FFFF) by (nonlinear_arith)
                    requires
                        acc > (0xFFFF_FFFF_FFFF_FFFFu64 - d) / 16,
                        d < 16,
                ;
                lemma_hex_prefix_monotone(s@, i + 1, n as int);
            }
            return None;
        }
        proof {
            assert(acc * 16 + d <= 0xFFFF_FFFF_FFFF_FFFF) by (nonlinear_arith)
                requires
                    acc <= (0xFFFF_FFFF_FFFF_FFFFu64 - d) / 16,
                    d < 16,
            ;
        }
        acc = acc * 16 + d;
        i += 1;
    }
    proof {
        assert(s@.take(n as int) =~= s@);
    }
    Some(acc)
}

/// A character sequence with every leading `0x` pair removed.
pub open spec fn strip_hex_prefixes(s: Seq<char>) -> Seq<char>
    decreases s.len(),
{
    if s.len() >= 2 && s[0] == '0' && s[1] == 'x' {
        strip_hex_prefixes(s.skip(2))
    } else {
        s
    }
}

/// Remove every leading `0x` pair of a string slice.
pub fn strip_hex_prefix<'a>(s: &'a str) -> (r: &'a str)
    ensures
        r@ == strip_hex_prefixes(s@),
{
    let mut cur: &str = s;
    let mut n = cur.unicode_len();
    while n >= 2 && cur.get_char(0) == '0' && cur.get_char(1) == 'x'
        invariant
            n == cur@.len(),
            strip_hex_prefixes(cur@) == strip_hex_prefixes(s@),
        decreases n,
    {
        let next = cur.substring_char(2, n);
        proof {
            assert(next@ =~= cur@.skip(2));
        }
        cur = next;
        n = n - 2;
    }
    cur
}


/// The numeric value of one decimal digit, or 10 for any other character.
pub open spec fn dec_val(c: char) -> nat {
    let x = c as u32;
    if 48 <= x <= 57 {
        (x - 48) as nat
    } else {
        10
    }
}

pub open spec fn is_dec_digit(c: char) -> bool {
    dec_val(c) < 10
}

pub open spec fn all_dec(s: Seq<char>) -> bool {
    forall|j: int| 0 <= j < s.len() ==> is_dec_digit(#[trigger] s[j])
}

/// Value of the first `i` characters read as a decimal number.
pub open spec fn dec_prefix_val(s: Seq<char>, i: int) -> nat
    decreases i,
{
    if i <= 0 {
        0
    } else {
        dec_prefix_val(s, i - 1) * 10 + dec_val(s[i - 1])
    }
}

proof fn lemma_dec_prefix_monotone(s: Seq<char>, i: int, j: int)
    requires
        0 <= i <= j,
    ensures
        dec_prefix_val(s, i) <= dec_prefix_val(s, j),
    decreases j - i,
{
    if i < j {
        lemma_dec_prefix_monotone(s, i, j - 1);
        assert(dec_prefix_val(s, j - 1) * 10 >= dec_prefix_val(s, j - 1)) by (nonlinear_arith);
    }
}

/// Parse a string of decimal digits.  `None` exactly when the string is
/// empty, holds a non-digit, or encodes a value that does not fit in 32
/// bits.
pub fn parse_dec_u32(s: &str) -> (r: Option<u32>)
    ensures
        r is Some <==> (s@.len() > 0 && all_dec(s@) && dec_prefix_val(s@, s@.len() as int)
            < 0x1_0000_0000),
        r is Some ==> r->0 == dec_prefix_val(s@, s@.len() as int),
{
    let n = s.unicode_len();
    if n == 0 {
        return None;
    }
    let mut acc: u32 = 0;
    let mut i: usize = 0;
    while i < n
        invariant
            i <= n,
            n == s@.len(),
            all_dec(s@.take(i as int)),
            acc == dec_prefix_val(s@, i as int),
        decreases n - i,
    {
        let c = s.get_char(i);
        let x = c as u32;
        if !(48 <= x && x <= 57) {
            proof {
                assert(!is_dec_digit(s@[i as int]));
            }
            return None;
        }
        let d: u32 = x - 48;
        proof {
            assert(d == dec_val(s@[i as int]));
            assert(all_dec(s@.take(i + 1))) by {
                assert(forall|j: int|
                    0 <= j < i + 1 ==> is_dec_digit(#[trigger] s@.take(i + 1)[j]));
            }
        }
        if acc > (0xFFFF_FFFFu32 - d) / 10 {
            proof {
                assert(acc * 10 + d > 0xFFFF_FFFF) by (nonlinear_arith)
                    requires
                        acc > (0xFFFF_FFFFu32 - d) / 10,
                        d < 10,
                ;
                lemma_dec_prefix_monotone(s@, i + 1, n as int);
            }
            return None;
        }
        proof {
            assert(acc * 10 + d <= 0xFFFF_FFFF) by (nonlinear_arith)
                requires
                    acc <= (0xFFFF_FFFFu32 - d) / 10,
                    d < 10,
            ;
        }
        acc = acc * 10 + d;
        i += 1;
    }
    proof {
        assert(s@.take(n as int) =~= s@);
    }
    Some(acc)
}

} // verus!
