//! Decoder for the Tock Binary Format: the fixed header base, the TLV
//! records that follow it, and the credential footers stored after the
//! application binary.
//!
//! Everything here is pure: bytes in, structured records out.  The layout
//! is little-endian; the first 8 bytes of a header are
//! `(version: u16, header_size: u16, total_size: u32)`, the checksum sits
//! at bytes 12..16, and TLV records begin at byte 16.

use vstd::prelude::*;

use crate::errors::TbfError;
use crate::text::utf8_to_string;
use vstd::utf8::decode_utf8;
use vstd::utf8::valid_utf8;

verus! {

/// The little-endian 16-bit value at offset `i`.
pub open spec fn le16_at(s: Seq<u8>, i: int) -> u16 {
    (s[i] + s[i + 1] * 0x100) as u16
}

/// The little-endian 32-bit value at offset `i`.
pub open spec fn le32_at(s: Seq<u8>, i: int) -> u32 {
    (s[i] + s[i + 1] * 0x100 + s[i + 2] * 0x10000 + s[i + 3] * 0x1000000) as u32
}

/// Read the little-endian 16-bit value at offset `i`.
pub fn read_u16_le(bytes: &Vec<u8>, i: usize) -> (r: u16)
    requires
        i + 2 <= bytes@.len(),
    ensures
        r == le16_at(bytes@, i as int),
{
    // The length call puts the vector's machine bound in scope, which the
    // index arithmetic needs.
    let n = bytes.len();
    (bytes[i] as u16) + (bytes[i + 1] as u16) * 0x100
}

/// Read the little-endian 32-bit value at offset `i`.
pub fn read_u32_le(bytes: &Vec<u8>, i: usize) -> (r: u32)
    requires
        i + 4 <= bytes@.len(),
    ensures
        r == le32_at(bytes@, i as int),
{
    // The length call puts the vector's machine bound in scope, which the
    // index arithmetic needs.
    let n = bytes.len();
    (bytes[i] as u32) + (bytes[i + 1] as u32) * 0x100 + (bytes[i + 2] as u32) * 0x10000 + (bytes[i
        + 3] as u32) * 0x1000000
}

/// A byte run padded with zero bytes up to a multiple of four.
pub open spec fn pad4(s: Seq<u8>) -> Seq<u8> {
    if s.len() % 4 == 0 {
        s
    } else {
        s + Seq::new((4 - s.len() % 4) as nat, |i: int| 0u8)
    }
}

/// Exclusive-or of all little-endian 32-bit words of a byte run whose
/// length is a multiple of four (a trailing fragment shorter than a word
/// counts as nothing).
pub open spec fn xor_words(s: Seq<u8>) -> u32
    decreases s.len(),
{
    if s.len() < 4 {
        0
    } else {
        le32_at(s, 0) ^ xor_words(s.skip(4))
    }
}

/// The header bytes with the checksum field (bytes 12..16) zeroed.
pub open spec fn zero_checksum_field(s: Seq<u8>) -> Seq<u8> {
    Seq::new(
        s.len(),
        |i: int|
            if 12 <= i < 16 {
                0u8
            } else {
                s[i]
            },
    )
}

/// The checksum a well-formed header must carry: the exclusive-or of all
/// 32-bit words of the header with the checksum field itself zeroed, the
/// tail zero-padded to a whole word.
pub open spec fn computed_checksum(s: Seq<u8>) -> u32 {
    xor_words(pad4(zero_checksum_field(s)))
}

/// Whether a header buffer carries the checksum computed over its bytes.
pub open spec fn spec_checksum_ok(s: Seq<u8>) -> bool {
    le32_at(s, 12) == computed_checksum(s)
}

/// A buffer at least one base header long whose stored checksum matches
/// the one computed over its bytes.
pub open spec fn valid_header_buffer(s: Seq<u8>) -> bool {
    s.len() >= 16 && spec_checksum_ok(s)
}





proof fn lemma_xor_zero_left(x: u32)
    ensures
        0u32 ^ x == x,
{
    assert(0u32 ^ x == x) by (bit_vector);
}

proof fn lemma_xor_zero_right(x: u32)
    ensures
        x ^ 0u32 == x,
{
    assert(x ^ 0u32 == x) by (bit_vector);
}

proof fn lemma_xor_assoc(a: u32, b: u32, c: u32)
    ensures
        (a ^ b) ^ c == a ^ (b ^ c),
{
    assert((a ^ b) ^ c == a ^ (b ^ c)) by (bit_vector);
}

/// Exclusive-or all 32-bit words of a buffer, zero-padding the tail.
fn checksum_words(buffer: &Vec<u8>) -> (r: u32)
    ensures
        r == xor_words(pad4(buffer@)),
{
    let n = buffer.len();
    let mut padded: Vec<u8> = Vec::new();
    let mut i: usize = 0;
    while i < n
        invariant
            i <= n,
            n == buffer@.len(),
            padded@ == buffer@.take(i as int),
        decreases n - i,
    {
        padded.push(buffer[i]);
        proof {
            assert(buffer@.take(i + 1) =~= buffer@.take(i as int).push(buffer@[i as int]));
        }
        i += 1;
    }
    proof {
        assert(buffer@.take(n as int) =~= buffer@);
    }
    let rem = n % 4;
    let pad_count: usize = if rem == 0 {
        0
    } else {
        4 - rem
    };
    let mut k: usize = 0;
    while k < pad_count
        invariant
            k <= pad_count,
            pad_count < 4,
            n == buffer@.len(),
            padded@.len() == n + k,
            padded@.take(n as int) == buffer@,
            forall|j: int| n <= j < padded@.len() ==> padded@[j] == 0u8,
        decreases pad_count - k,
    {
        padded.push(0);
        proof {
            assert(padded@.take(n as int) =~= buffer@);
        }
        k += 1;
    }
    proof {
        assert(padded@ =~= pad4(buffer@));
    }
    let mut acc: u32 = 0;
    let mut off: usize = 0;
    proof {
        assert(padded@.skip(0) =~= padded@);
        lemma_xor_zero_left(xor_words(padded@));
    }
    while off < padded.len()
        invariant
            off <= padded@.len(),
            off % 4 == 0,
            padded@.len() % 4 == 0,
            acc ^ xor_words(padded@.skip(off as int)) == xor_words(padded@),
        decreases padded@.len() - off,
    {
        let w = read_u32_le(&padded, off);
        proof {
            let rest = padded@.skip(off as int);
            assert(rest[0] == padded@[off as int]);
            assert(rest[1] == padded@[off + 1]);
            assert(rest[2] == padded@[off + 2]);
            assert(rest[3] == padded@[off + 3]);
            assert(le32_at(rest, 0) == le32_at(padded@, off as int));
            assert(rest.skip(4) =~= padded@.skip(off + 4));
            assert(xor_words(rest) == le32_at(rest, 0) ^ xor_words(rest.skip(4)));
            lemma_xor_assoc(acc, le32_at(rest, 0), xor_words(rest.skip(4)));
        }
        acc = acc ^ w;
        off += 4;
    }
    proof {
        assert(padded@.skip(padded@.len() as int) =~= Seq::<u8>::empty());
        assert(xor_words(Seq::<u8>::empty()) == 0);
        lemma_xor_zero_right(acc);
    }
    acc
}

/// A copy of a header buffer with the checksum field zeroed.
fn zero_checksum(bytes: &Vec<u8>) -> (r: Vec<u8>)
    ensures
        r@ == zero_checksum_field(bytes@),
{
    let mut out: Vec<u8> = Vec::new();
    let mut i: usize = 0;
    while i < bytes.len()
        invariant
            i <= bytes@.len(),
            out@ == zero_checksum_field(bytes@).take(i as int),
        decreases bytes@.len() - i,
    {
        if 12 <= i && i < 16 {
            out.push(0);
        } else {
            out.push(bytes[i]);
        }
        proof {
            assert(zero_checksum_field(bytes@).take(i + 1) =~= zero_checksum_field(
                bytes@,
            ).take(i as int).push(zero_checksum_field(bytes@)[i as int]));
        }
        i += 1;
    }
    proof {
        assert(zero_checksum_field(bytes@).take(bytes@.len() as int) =~= zero_checksum_field(
            bytes@,
        ));
    }
    out
}

/// Whether a header buffer's stored checksum matches the checksum computed
/// over its bytes with the checksum field zeroed.
pub fn verify_checksum(bytes: &Vec<u8>) -> (r: bool)
    requires
        bytes@.len() >= 16,
    ensures
        r == spec_checksum_ok(bytes@),
{
    let zeroed = zero_checksum(bytes);
    let computed = checksum_words(&zeroed);
    let provided = read_u32_le(bytes, 12);
    provided == computed
}

/// A single-bit flip in one byte of a word-aligned buffer changes the
/// exclusive-or of its words.
proof fn lemma_xor_words_bit_flip(s1: Seq<u8>, s2: Seq<u8>, k: int, j: u8)
    requires
        s1.len() == s2.len(),
        s1.len() as int % 4 == 0,
        0 <= k < s1.len(),
        j < 8,
        s2[k] == s1[k] ^ (1u8 << j),
        forall|i: int| 0 <= i < s1.len() && i != k ==> s1[i] == s2[i],
    ensures
        xor_words(s1) != xor_words(s2),
    decreases s1.len(),
{
    assert(s1.len() >= 4);
    let a0 = s1[0];
    let a1 = s1[1];
    let a2 = s1[2];
    let a3 = s1[3];
    let b0 = s2[0];
    let b1 = s2[1];
    let b2 = s2[2];
    let b3 = s2[3];
    let w1 = le32_at(s1, 0);
    let w2 = le32_at(s2, 0);
    let r1 = xor_words(s1.skip(4));
    let r2 = xor_words(s2.skip(4));
    assert(xor_words(s1) == w1 ^ r1);
    assert(xor_words(s2) == w2 ^ r2);
    if k < 4 {
        assert(s1.skip(4) =~= s2.skip(4));
        if k == 0 {
            assert(((a0 + a1 * 0x100 + a2 * 0x10000 + a3 * 0x1000000) as u32) != ((b0 + b1 * 0x100
                + b2 * 0x10000 + b3 * 0x1000000) as u32)) by (bit_vector)
                requires
                    b0 == a0 ^ (1u8 << j),
                    j < 8,
                    b1 == a1,
                    b2 == a2,
                    b3 == a3,
            ;
        } else if k == 1 {
            assert(((a0 + a1 * 0x100 + a2 * 0x10000 + a3 * 0x1000000) as u32) != ((b0 + b1 * 0x100
                + b2 * 0x10000 + b3 * 0x1000000) as u32)) by (bit_vector)
                requires
                    b1 == a1 ^ (1u8 << j),
                    j < 8,
                    b0 == a0,
                    b2 == a2,
                    b3 == a3,
            ;
        } else if k == 2 {
            assert(((a0 + a1 * 0x100 + a2 * 0x10000 + a3 * 0x1000000) as u32) != ((b0 + b1 * 0x100
                + b2 * 0x10000 + b3 * 0x1000000) as u32)) by (bit_vector)
                requires
                    b2 == a2 ^ (1u8 << j),
                    j < 8,
                    b0 == a0,
                    b1 == a1,
                    b3 == a3,
            ;
        } else {
            assert(((a0 + a1 * 0x100 + a2 * 0x10000 + a3 * 0x1000000) as u32) != ((b0 + b1 * 0x100
                + b2 * 0x10000 + b3 * 0x1000000) as u32)) by (bit_vector)
                requires
                    b3 == a3 ^ (1u8 << j),
                    j < 8,
                    b0 == a0,
                    b1 == a1,
                    b2 == a2,
            ;
        }
        assert(w1 != w2);
        assert(w1 ^ r1 != w2 ^ r1) by (bit_vector)
            requires
                w1 != w2,
        ;
    } else {
        assert(w1 == w2);
        assert(s1.skip(4).len() as int % 4 == 0) by (nonlinear_arith)
            requires
                s1.len() as int % 4 == 0,
                s1.len() >= 4,
                s1.skip(4).len() == s1.len() - 4,
        ;
        assert(s1.skip(4)[k - 4] == s1[k]);
        assert(s2.skip(4)[k - 4] == s2[k]);
        assert(forall|i: int|
            0 <= i < s1.skip(4).len() && i != k - 4 ==> s1.skip(4)[i] == s2.skip(4)[i]);
        lemma_xor_words_bit_flip(s1.skip(4), s2.skip(4), k - 4, j);
        assert(r1 != r2);
        assert(w1 ^ r1 != w1 ^ r2) by (bit_vector)
            requires
                r1 != r2,
        ;
    }
}

/// A single-bit flip anywhere in a header buffer breaks the checksum
/// check: a flip outside the stored checksum field changes the computed
/// checksum while the stored value stays, and a flip inside the field
/// changes the stored value while the computed one stays, so a buffer
/// that verified no longer does.
pub proof fn lemma_checksum_detects_bit_flip(h1: Seq<u8>, h2: Seq<u8>, k: int, j: u8)
    requires
        h1.len() == h2.len(),
        h1.len() >= 16,
        0 <= k < h1.len(),
        j < 8,
        h2[k] == h1[k] ^ (1u8 << j),
        forall|i: int| 0 <= i < h1.len() && i != k ==> h1[i] == h2[i],
        spec_checksum_ok(h1),
    ensures
        !spec_checksum_ok(h2),
{
    let z1 = zero_checksum_field(h1);
    let z2 = zero_checksum_field(h2);
    let p1 = pad4(z1);
    let p2 = pad4(z2);
    if 12 <= k < 16 {
        // The stored value changes; the computed one does not.
        assert(z1 =~= z2);
        let a0 = h1[12];
        let a1 = h1[13];
        let a2 = h1[14];
        let a3 = h1[15];
        let b0 = h2[12];
        let b1 = h2[13];
        let b2 = h2[14];
        let b3 = h2[15];
        if k == 12 {
            assert(((a0 + a1 * 0x100 + a2 * 0x10000 + a3 * 0x1000000) as u32) != ((b0 + b1 * 0x100
                + b2 * 0x10000 + b3 * 0x1000000) as u32)) by (bit_vector)
                requires
                    b0 == a0 ^ (1u8 << j),
                    j < 8,
                    b1 == a1,
                    b2 == a2,
                    b3 == a3,
            ;
        } else if k == 13 {
            assert(((a0 + a1 * 0x100 + a2 * 0x10000 + a3 * 0x1000000) as u32) != ((b0 + b1 * 0x100
                + b2 * 0x10000 + b3 * 0x1000000) as u32)) by (bit_vector)
                requires
                    b1 == a1 ^ (1u8 << j),
                    j < 8,
                    b0 == a0,
                    b2 == a2,
                    b3 == a3,
            ;
        } else if k == 14 {
            assert(((a0 + a1 * 0x100 + a2 * 0x10000 + a3 * 0x1000000) as u32) != ((b0 + b1 * 0x100
                + b2 * 0x10000 + b3 * 0x1000000) as u32)) by (bit_vector)
                requires
                    b2 == a2 ^ (1u8 << j),
                    j < 8,
                    b0 == a0,
                    b1 == a1,
                    b3 == a3,
            ;
        } else {
            assert(((a0 + a1 * 0x100 + a2 * 0x10000 + a3 * 0x1000000) as u32) != ((b0 + b1 * 0x100
                + b2 * 0x10000 + b3 * 0x1000000) as u32)) by (bit_vector)
                requires
                    b3 == a3 ^ (1u8 << j),
                    j < 8,
                    b0 == a0,
                    b1 == a1,
                    b2 == a2,
            ;
        }
        assert(le32_at(h1, 12) != le32_at(h2, 12));
    } else {
        // The stored value stays; the computed one changes.
        assert(le32_at(h1, 12) == le32_at(h2, 12));
        assert(z1.len() == z2.len() == h1.len());
        assert(z1[k] == h1[k] && z2[k] == h2[k]);
        assert(forall|i: int| 0 <= i < z1.len() && i != k ==> z1[i] == z2[i]);
        if h1.len() as int % 4 == 0 {
            assert(p1 == z1 && p2 == z2);
        } else {
            assert(p1.len() == p2.len());
            assert(p1[k] == z1[k] && p2[k] == z2[k]);
            assert(forall|i: int| 0 <= i < p1.len() && i != k ==> p1[i] == p2[i]);
            assert(p1.len() as int % 4 == 0) by (nonlinear_arith)
                requires
                    h1.len() as int % 4 != 0,
                    p1.len() == h1.len() + 4 - h1.len() as int % 4,
            ;
        }
        assert(p1.len() as int % 4 == 0) by (nonlinear_arith)
            requires
                (h1.len() as int % 4 == 0 && p1.len() == h1.len()) || (h1.len() as int % 4 != 0
                    && p1.len() == h1.len() + 4 - h1.len() as int % 4),
        ;
        lemma_xor_words_bit_flip(p1, p2, k, j);
        assert(computed_checksum(h1) != computed_checksum(h2));
    }
}

/// Every header buffer whose stored checksum is the one computed over its
/// bytes passes the checksum check.
pub proof fn lemma_checksum_invariant(s: Seq<u8>)
    requires
        valid_header_buffer(s),
    ensures
        spec_checksum_ok(s),
{
}


/// The kinds of TLV records a TBF header or footer can hold.
#[derive(Clone, Copy, Debug, PartialEq, Eq, Structural)]
pub enum TbfHeaderTypes {
    TbfHeaderMain,
    TbfHeaderWriteableFlashRegions,
    TbfHeaderPackageName,
    TbfHeaderFixedAddresses,
    TbfHeaderPermissions,
    TbfHeaderStoragePermissions,
    TbfHeaderKernelVersion,
    TbfHeaderProgram,
    TbfHeaderShortId,
    TbfFooterCredentials,
    Unknown,
}

/// The record kind a TLV type value names; any undocumented value maps to
/// `Unknown` and is preserved, never rejected.
pub open spec fn spec_tlv_type(t: u16) -> TbfHeaderTypes {
    match t {
        1u16 => TbfHeaderTypes::TbfHeaderMain,
        2u16 => TbfHeaderTypes::TbfHeaderWriteableFlashRegions,
        3u16 => TbfHeaderTypes::TbfHeaderPackageName,
        5u16 => TbfHeaderTypes::TbfHeaderFixedAddresses,
        6u16 => TbfHeaderTypes::TbfHeaderPermissions,
        7u16 => TbfHeaderTypes::TbfHeaderStoragePermissions,
        8u16 => TbfHeaderTypes::TbfHeaderKernelVersion,
        9u16 => TbfHeaderTypes::TbfHeaderProgram,
        10u16 => TbfHeaderTypes::TbfHeaderShortId,
        128u16 => TbfHeaderTypes::TbfFooterCredentials,
        _ => TbfHeaderTypes::Unknown,
    }
}

impl TbfHeaderTypes {
    /// Decode one TLV type value.
    pub fn from_u16(t: u16) -> (r: TbfHeaderTypes)
        ensures
            r == spec_tlv_type(t),
    {
        match t {
            1 => TbfHeaderTypes::TbfHeaderMain,
            2 => TbfHeaderTypes::TbfHeaderWriteableFlashRegions,
            3 => TbfHeaderTypes::TbfHeaderPackageName,
            5 => TbfHeaderTypes::TbfHeaderFixedAddresses,
            6 => TbfHeaderTypes::TbfHeaderPermissions,
            7 => TbfHeaderTypes::TbfHeaderStoragePermissions,
            8 => TbfHeaderTypes::TbfHeaderKernelVersion,
            9 => TbfHeaderTypes::TbfHeaderProgram,
            10 => TbfHeaderTypes::TbfHeaderShortId,
            128 => TbfHeaderTypes::TbfFooterCredentials,
            _ => TbfHeaderTypes::Unknown,
        }
    }
}

/// One TLV record: its kind and the length of its value.
#[derive(Clone, Copy, Debug, PartialEq, Eq, Structural)]
pub struct TbfTlv {
    pub tipe: TbfHeaderTypes,
    pub length: u16,
}

impl TbfTlv {
    pub fn new(tipe: TbfHeaderTypes, length: u16) -> (r: Self)
        ensures
            r.tipe == tipe,
            r.length == length,
    {
        TbfTlv { tipe, length }
    }
}

/// The Main record: entry point and memory demands of an application.
#[derive(Clone, Copy, Debug, PartialEq, Eq, Structural)]
pub struct TbfHeaderV2Main {
    pub init_fn_offset: u32,
    pub protected_trailer_size: u32,
    pub minimum_ram_size: u32,
}

/// The Main record read from 12 value bytes at offset `off`.
pub open spec fn spec_main_at(s: Seq<u8>, off: int) -> TbfHeaderV2Main {
    TbfHeaderV2Main {
        init_fn_offset: le32_at(s, off),
        protected_trailer_size: le32_at(s, off + 4),
        minimum_ram_size: le32_at(s, off + 8),
    }
}

impl TbfHeaderV2Main {
    /// Decode a Main record from its value bytes; `None` unless the value
    /// is exactly 12 bytes.
    pub fn new(buffer: Vec<u8>) -> (r: Option<TbfHeaderV2Main>)
        ensures
            r is Some <==> buffer@.len() == 12,
            r is Some ==> r->0 == spec_main_at(buffer@, 0),
    {
        if buffer.len() != 12 {
            return None;
        }
        Some(
            TbfHeaderV2Main {
                init_fn_offset: read_u32_le(&buffer, 0),
                protected_trailer_size: read_u32_le(&buffer, 4),
                minimum_ram_size: read_u32_le(&buffer, 8),
            },
        )
    }
}

/// The Program record: like Main, with the end of the binary and an
/// application version added.
#[derive(Clone, Copy, Debug, PartialEq, Eq, Structural)]
pub struct TbfHeaderV2Program {
    pub init_fn_offset: u32,
    pub protected_trailer_size: u32,
    pub minimum_ram_size: u32,
    pub binary_end_offset: u32,
    pub version: u32,
}

/// The Program record read from 20 value bytes at offset `off`.
pub open spec fn spec_program_at(s: Seq<u8>, off: int) -> TbfHeaderV2Program {
    TbfHeaderV2Program {
        init_fn_offset: le32_at(s, off),
        protected_trailer_size: le32_at(s, off + 4),
        minimum_ram_size: le32_at(s, off + 8),
        binary_end_offset: le32_at(s, off + 12),
        version: le32_at(s, off + 16),
    }
}

impl TbfHeaderV2Program {
    /// Decode a Program record from its value bytes.  An empty value gives
    /// the defaults with the binary running to `total_size`; any length
    /// other than 0 or 20 gives `None`.
    pub fn new(buffer: Vec<u8>, total_size: u32) -> (r: Option<TbfHeaderV2Program>)
        ensures
            r is Some <==> (buffer@.len() == 0 || buffer@.len() == 20),
            buffer@.len() == 0 ==> r == Some(
                TbfHeaderV2Program {
                    init_fn_offset: 0u32,
                    protected_trailer_size: 0u32,
                    minimum_ram_size: 0u32,
                    binary_end_offset: total_size,
                    version: 0u32,
                },
            ),
            buffer@.len() == 20 ==> r == Some(spec_program_at(buffer@, 0)),
    {
        if buffer.len() == 0 {
            return Some(
                TbfHeaderV2Program {
                    init_fn_offset: 0,
                    protected_trailer_size: 0,
                    minimum_ram_size: 0,
                    binary_end_offset: total_size,
                    version: 0,
                },
            );
        }
        if buffer.len() == 20 {
            Some(
                TbfHeaderV2Program {
                    init_fn_offset: read_u32_le(&buffer, 0),
                    protected_trailer_size: read_u32_le(&buffer, 4),
                    minimum_ram_size: read_u32_le(&buffer, 8),
                    binary_end_offset: read_u32_le(&buffer, 12),
                    version: read_u32_le(&buffer, 16),
                },
            )
        } else {
            None
        }
    }
}

/// A writeable flash region record.
#[derive(Clone, Copy, Debug, Default, PartialEq, Eq, Structural)]
pub struct TbfHeaderV2WriteableFlashRegion {
    pub writeable_flash_region_offset: u32,
    pub writeable_flash_region_size: u32,
}

/// A fixed addresses record.
#[derive(Clone, Copy, Debug, Default, PartialEq, Eq, Structural)]
pub struct TbfHeaderV2FixedAddresses {
    pub start_process_ram: u32,
    pub start_process_flash: u32,
}

/// One driver permission entry.
#[derive(Clone, Copy, Debug, Default, PartialEq, Eq, Structural)]
pub struct TbfHeaderDriverPermission {
    pub driver_number: u32,
    pub offset: u32,
    pub allowed_commands: u64,
}

/// A permissions record over a fixed number of driver entries.
#[derive(Clone, Copy, Debug)]
pub struct TbfHeaderV2Permissions<const L: usize> {
    pub length: u16,
    pub perms: [TbfHeaderDriverPermission; L],
}

/// A storage permissions record over a fixed number of identifiers.
#[derive(Clone, Copy, Debug)]
pub struct TbfHeaderV2StoragePermissions<const L: usize> {
    pub write_id: Option<u32>,
    pub read_length: u16,
    pub read_ids: [u32; L],
    pub modify_length: u16,
    pub modify_ids: [u32; L],
}

/// The kernel version an application was built against.
#[derive(Clone, Copy, Debug, PartialEq, Eq, Structural)]
pub struct TbfHeaderV2KernelVersion {
    pub major: u16,
    pub minor: u16,
}

/// The short identifier record; zero on the wire means none.
#[derive(Clone, Copy, Debug, PartialEq, Eq, Structural)]
pub struct TbfHeaderV2ShortId {
    pub short_id: Option<u32>,
}

/// The fixed 16-byte base every version-2 header starts with.
#[derive(Clone, Copy, Debug, PartialEq, Eq, Structural)]
pub struct TBFHeaderV2Base {
    pub is_app: bool,
    pub tbf_version: u16,
    pub header_size: u16,
    pub total_size: u32,
    pub flag: u32,
    pub checksum: u32,
}

impl TBFHeaderV2Base {
    /// Decode the fixed base fields.  `is_app` reports whether TLV records
    /// follow the base, that is whether the header describes an
    /// application rather than bare padding.
    pub fn new(buf: Vec<u8>) -> (r: Self)
        requires
            buf@.len() >= 16,
        ensures
            r.tbf_version == le16_at(buf@, 0),
            r.header_size == le16_at(buf@, 2),
            r.total_size == le32_at(buf@, 4),
            r.flag == le32_at(buf@, 8),
            r.checksum == le32_at(buf@, 12),
            r.is_app == (buf@.len() >= le16_at(buf@, 2) && le16_at(buf@, 2) > 16),
    {
        let tbf_version = read_u16_le(&buf, 0);
        let header_size = read_u16_le(&buf, 2);
        let total_size = read_u32_le(&buf, 4);
        let flag = read_u32_le(&buf, 8);
        let checksum = read_u32_le(&buf, 12);
        let is_app = buf.len() >= header_size as usize && header_size > 16;
        TBFHeaderV2Base { is_app, tbf_version, header_size, total_size, flag, checksum }
    }

    /// Exclusive-or of all 32-bit words of a buffer, the tail zero-padded
    /// to a whole word.
    pub fn _checksum(buffer: Vec<u8>) -> (r: u32)
        ensures
            r == xor_words(pad4(buffer@)),
    {
        checksum_words(&buffer)
    }
}


/// What one pass over the TLV records yields: the first record of each
/// decoded kind, and every record's kind and length in order.  The
/// `tlvs` field is a mathematical sequence: this form is what the spec
/// parser produces.
pub struct SpecTlvSummary {
    pub main: Option<TbfHeaderV2Main>,
    pub program: Option<TbfHeaderV2Program>,
    pub package_name_range: Option<(usize, usize)>,
    pub kernel_version: Option<TbfHeaderV2KernelVersion>,
    pub short_id: Option<TbfHeaderV2ShortId>,
    pub tlvs: Seq<TbfTlv>,
}

/// As [`SpecTlvSummary`], with the record list as a vector.
pub struct TlvSummary {
    pub main: Option<TbfHeaderV2Main>,
    pub program: Option<TbfHeaderV2Program>,
    pub package_name_range: Option<(usize, usize)>,
    pub kernel_version: Option<TbfHeaderV2KernelVersion>,
    pub short_id: Option<TbfHeaderV2ShortId>,
    pub tlvs: Vec<TbfTlv>,
}

/// The kernel version record read from 4 value bytes at offset `off`.
pub open spec fn spec_kernel_version_at(s: Seq<u8>, off: int) -> TbfHeaderV2KernelVersion {
    TbfHeaderV2KernelVersion { major: le16_at(s, off), minor: le16_at(s, off + 2) }
}

/// The short id record read from 4 value bytes at offset `off`.
pub open spec fn spec_short_id_at(s: Seq<u8>, off: int) -> TbfHeaderV2ShortId {
    TbfHeaderV2ShortId {
        short_id: if le32_at(s, off) == 0 {
            None
        } else {
            Some(le32_at(s, off))
        },
    }
}

/// Walk the TLV records of a header from offset `off` to the end of the
/// buffer.  `None` when a record's four-byte prelude or declared value
/// runs past the end.  Of records with the same kind, the first wins.
pub open spec fn spec_parse_tlvs(s: Seq<u8>, off: int) -> Option<SpecTlvSummary>
    decreases s.len() - off,
{
    if off == s.len() {
        Some(
            SpecTlvSummary {
                main: None,
                program: None,
                package_name_range: None,
                kernel_version: None,
                short_id: None,
                tlvs: Seq::empty(),
            },
        )
    } else if off < 0 || off + 4 > s.len() {
        None
    } else {
        let t = le16_at(s, off);
        let l = le16_at(s, off + 2);
        if off + 4 + l > s.len() {
            None
        } else {
            match spec_parse_tlvs(s, off + 4 + l) {
                None => None,
                Some(rest) => Some(
                    SpecTlvSummary {
                        main: if t == 1 && l == 12 {
                            Some(spec_main_at(s, off + 4))
                        } else {
                            rest.main
                        },
                        program: if t == 9 && l == 20 {
                            Some(spec_program_at(s, off + 4))
                        } else {
                            rest.program
                        },
                        package_name_range: if t == 3 {
                            Some(((off + 4) as usize, l as usize))
                        } else {
                            rest.package_name_range
                        },
                        kernel_version: if t == 8 && l == 4 {
                            Some(spec_kernel_version_at(s, off + 4))
                        } else {
                            rest.kernel_version
                        },
                        short_id: if t == 10 && l == 4 {
                            Some(spec_short_id_at(s, off + 4))
                        } else {
                            rest.short_id
                        },
                        tlvs: seq![TbfTlv { tipe: spec_tlv_type(t), length: l }] + rest.tlvs,
                    },
                ),
            }
        }
    }
}

/// Any package-name range the TLV walk reports lies inside the buffer.
proof fn lemma_tlv_name_range_in_bounds(s: Seq<u8>, off: int)
    requires
        0 <= off <= s.len(),
        s.len() <= usize::MAX,
        spec_parse_tlvs(s, off) is Some,
    ensures
        match spec_parse_tlvs(s, off)->0.package_name_range {
            Some((o, l)) => off <= o && o + l <= s.len(),
            None => true,
        },
    decreases s.len() - off,
{
    if off == s.len() {
    } else {
        let t = le16_at(s, off);
        let l = le16_at(s, off + 2);
        lemma_tlv_name_range_in_bounds(s, off + 4 + l);
    }
}

/// Whether an executable summary agrees with a spec-level one.
pub open spec fn tlv_summary_matches(t: TlvSummary, s: SpecTlvSummary) -> bool {
    &&& t.main == s.main
    &&& t.program == s.program
    &&& t.package_name_range == s.package_name_range
    &&& t.kernel_version == s.kernel_version
    &&& t.short_id == s.short_id
    &&& t.tlvs@ == s.tlvs
}

/// Walk the TLV records of a header buffer from offset `off`, collecting
/// the first record of each decoded kind and every record's kind and
/// length in order.
fn parse_tlvs(bytes: &Vec<u8>, off: usize) -> (r: Option<TlvSummary>)
    requires
        off <= bytes@.len(),
    ensures
        r is Some <==> spec_parse_tlvs(bytes@, off as int) is Some,
        r is Some ==> tlv_summary_matches(r->0, spec_parse_tlvs(bytes@, off as int)->0),
    decreases bytes@.len() - off,
{
    let n = bytes.len();
    if off == n {
        return Some(
            TlvSummary {
                main: None,
                program: None,
                package_name_range: None,
                kernel_version: None,
                short_id: None,
                tlvs: Vec::new(),
            },
        );
    }
    if n - off < 4 {
        return None;
    }
    let t = read_u16_le(bytes, off);
    let l = read_u16_le(bytes, off + 2);
    if (l as usize) > n - off - 4 {
        return None;
    }
    let value_off = off + 4;
    let next = off + 4 + l as usize;
    match parse_tlvs(bytes, next) {
        None => None,
        Some(rest) => {
            let main = if t == 1 && l == 12 {
                Some(
                    TbfHeaderV2Main {
                        init_fn_offset: read_u32_le(bytes, value_off),
                        protected_trailer_size: read_u32_le(bytes, value_off + 4),
                        minimum_ram_size: read_u32_le(bytes, value_off + 8),
                    },
                )
            } else {
                rest.main
            };
            let program = if t == 9 && l == 20 {
                Some(
                    TbfHeaderV2Program {
                        init_fn_offset: read_u32_le(bytes, value_off),
                        protected_trailer_size: read_u32_le(bytes, value_off + 4),
                        minimum_ram_size: read_u32_le(bytes, value_off + 8),
                        binary_end_offset: read_u32_le(bytes, value_off + 12),
                        version: read_u32_le(bytes, value_off + 16),
                    },
                )
            } else {
                rest.program
            };
            let package_name_range = if t == 3 {
                Some((value_off, l as usize))
            } else {
                rest.package_name_range
            };
            let kernel_version = if t == 8 && l == 4 {
                Some(
                    TbfHeaderV2KernelVersion {
                        major: read_u16_le(bytes, value_off),
                        minor: read_u16_le(bytes, value_off + 2),
                    },
                )
            } else {
                rest.kernel_version
            };
            let short_id = if t == 10 && l == 4 {
                let v = read_u32_le(bytes, value_off);
                Some(
                    TbfHeaderV2ShortId {
                        short_id: if v == 0 {
                            None
                        } else {
                            Some(v)
                        },
                    },
                )
            } else {
                rest.short_id
            };
            let mut tlvs = rest.tlvs;
            tlvs.insert(0, TbfTlv { tipe: TbfHeaderTypes::from_u16(t), length: l });
            proof {
                let srec = spec_parse_tlvs(bytes@, next as int)->0;
                assert(tlvs@ =~= seq![
                    TbfTlv { tipe: spec_tlv_type(t), length: l },
                ] + srec.tlvs);
            }
            Some(TlvSummary { main, program, package_name_range, kernel_version, short_id, tlvs })
        },
    }
}


/// Copy the bytes of the range `[from, to)`.
pub fn subvec(bytes: &Vec<u8>, from: usize, to: usize) -> (r: Vec<u8>)
    requires
        from <= to <= bytes@.len(),
    ensures
        r@ == bytes@.subrange(from as int, to as int),
{
    let mut out: Vec<u8> = Vec::new();
    let mut i: usize = from;
    proof {
        assert(bytes@.subrange(from as int, from as int) =~= Seq::<u8>::empty());
    }
    while i < to
        invariant
            from <= i <= to <= bytes@.len(),
            out@ == bytes@.subrange(from as int, i as int),
        decreases to - i,
    {
        out.push(bytes[i]);
        proof {
            assert(bytes@.subrange(from as int, i + 1) =~= bytes@.subrange(
                from as int,
                i as int,
            ).push(bytes@[i as int]));
        }
        i += 1;
    }
    out
}

/// Split the first 8 bytes of a header into
/// `(version, header_size, total_size)`.  A `header_size` of zero is not
/// an error here: the directory walk reads it as "no more applications".
pub fn parse_tbf_header_lengths(data: &Vec<u8>) -> (r: Result<(u16, u16, u32), TbfError>)
    ensures
        r is Ok <==> (data@.len() >= 8 && (le16_at(data@, 0) == 2 || le16_at(data@, 2) == 0)),
        r is Ok ==> r->Ok_0 == (le16_at(data@, 0), le16_at(data@, 2), le32_at(data@, 4)),
        r is Err ==> (if data@.len() < 8 {
            r->Err_0 == TbfError::TruncatedHeader
        } else {
            r->Err_0 == TbfError::UnsupportedVersion(le16_at(data@, 0))
        }),
{
    if data.len() < 8 {
        return Err(TbfError::TruncatedHeader);
    }
    let version = read_u16_le(data, 0);
    let header_size = read_u16_le(data, 2);
    let total_size = read_u32_le(data, 4);
    if version != 2 && header_size != 0 {
        return Err(TbfError::UnsupportedVersion(version));
    }
    Ok((version, header_size, total_size))
}

/// A decoded version-2 application header.
#[derive(Clone, Debug)]
pub struct TbfHeader {
    pub version: u16,
    pub header_size: u16,
    pub total_size: u32,
    pub enabled: bool,
    pub sticky: bool,
    pub checksum: u32,
    pub main: Option<TbfHeaderV2Main>,
    pub program: Option<TbfHeaderV2Program>,
    pub package_name: Option<String>,
    pub kernel_version: Option<TbfHeaderV2KernelVersion>,
    pub short_id: Option<TbfHeaderV2ShortId>,
    pub tlvs: Vec<TbfTlv>,
}

impl TbfHeader {
    /// Offset of the first byte after the application binary, where the
    /// footers begin; without a Program record the binary runs to
    /// `total_size` and there are no footers.
    pub fn get_binary_end(&self) -> (r: u32)
        ensures
            r == self.spec_binary_end(),
    {
        match &self.program {
            Some(p) => p.binary_end_offset,
            None => self.total_size,
        }
    }

    pub open spec fn spec_binary_end(&self) -> u32 {
        match self.program {
            Some(p) => p.binary_end_offset,
            None => self.total_size,
        }
    }

    pub fn enabled(&self) -> (r: bool)
        ensures
            r == self.enabled,
    {
        self.enabled
    }

    pub fn sticky(&self) -> (r: bool)
        ensures
            r == self.sticky,
    {
        self.sticky
    }

    pub fn header_size(&self) -> (r: u16)
        ensures
            r == self.header_size,
    {
        self.header_size
    }

    pub fn total_size(&self) -> (r: u32)
        ensures
            r == self.total_size,
    {
        self.total_size
    }

    pub fn checksum(&self) -> (r: u32)
        ensures
            r == self.checksum,
    {
        self.checksum
    }

    pub fn get_package_name(&self) -> (r: &Option<String>)
        ensures
            r == &self.package_name,
    {
        &self.package_name
    }

    pub fn get_kernel_version(&self) -> (r: Option<(u16, u16)>)
        ensures
            match self.kernel_version {
                Some(kv) => r == Some((kv.major, kv.minor)),
                None => r is None,
            },
    {
        match &self.kernel_version {
            Some(kv) => Some((kv.major, kv.minor)),
            None => None,
        }
    }

    pub fn get_minimum_app_ram_size(&self) -> (r: u32)
        ensures
            r == (match self.program {
                Some(p) => p.minimum_ram_size,
                None => match self.main {
                    Some(m) => m.minimum_ram_size,
                    None => 0u32,
                },
            }),
    {
        match &self.program {
            Some(p) => p.minimum_ram_size,
            None => match &self.main {
                Some(m) => m.minimum_ram_size,
                None => 0,
            },
        }
    }

    pub fn get_init_function_offset(&self) -> (r: u32)
        ensures
            r == (match self.program {
                Some(p) => p.init_fn_offset,
                None => match self.main {
                    Some(m) => m.init_fn_offset,
                    None => 0u32,
                },
            }),
    {
        match &self.program {
            Some(p) => p.init_fn_offset,
            None => match &self.main {
                Some(m) => m.init_fn_offset,
                None => 0,
            },
        }
    }

    pub fn get_protected_size(&self) -> (r: u32)
        ensures
            r == (match self.program {
                Some(p) => p.protected_trailer_size,
                None => match self.main {
                    Some(m) => m.protected_trailer_size,
                    None => 0u32,
                },
            }),
    {
        match &self.program {
            Some(p) => p.protected_trailer_size,
            None => match &self.main {
                Some(m) => m.protected_trailer_size,
                None => 0,
            },
        }
    }

    pub fn get_binary_version(&self) -> (r: u32)
        ensures
            r == (match self.program {
                Some(p) => p.version,
                None => 0u32,
            }),
    {
        match &self.program {
            Some(p) => p.version,
            None => 0,
        }
    }
}

/// Whether a decoded header is exactly what the given header bytes say:
/// the base fields read from their fixed offsets, the first record of
/// each decoded TLV kind, every record's kind and length in order, and
/// the package name decoded from its record when it is UTF-8.
pub open spec fn spec_header_matches(h: TbfHeader, s: Seq<u8>, version: u16) -> bool {
    &&& spec_parse_tlvs(s, 16) is Some
    &&& {
        let tl = spec_parse_tlvs(s, 16)->0;
        &&& h.version == version
        &&& h.header_size == le16_at(s, 2)
        &&& h.total_size == le32_at(s, 4)
        &&& h.enabled == (le32_at(s, 8) & 1 == 1)
        &&& h.sticky == (le32_at(s, 8) & 2 == 2)
        &&& h.checksum == le32_at(s, 12)
        &&& h.main == tl.main
        &&& h.program == tl.program
        &&& h.kernel_version == tl.kernel_version
        &&& h.short_id == tl.short_id
        &&& h.tlvs@ == tl.tlvs
        &&& (match tl.package_name_range {
            Some((off, len)) => if valid_utf8(s.subrange(off as int, off + len)) {
                h.package_name is Some && h.package_name->0@ == decode_utf8(
                    s.subrange(off as int, off + len),
                )
            } else {
                h.package_name is None
            },
            None => h.package_name is None,
        })
    }
}

/// Decode a whole version-2 header from exactly its `header_size` bytes.
/// The checksum is recomputed over the buffer with the checksum field
/// zeroed and compared against the stored one; a mismatch is reported
/// with both values.  Unknown TLV kinds are kept generically, never
/// rejected; a package name that is not UTF-8 leaves the decoded name
/// unset while its record stays in the list.
pub fn parse_tbf_header(bytes: &Vec<u8>, version: u16) -> (r: Result<TbfHeader, TbfError>)
    ensures
        ({
            let s = bytes@;
            let sized = s.len() >= 16 && le16_at(s, 2) == s.len();
            match r {
                Ok(h) => {
                    &&& sized
                    &&& version == 2
                    &&& spec_checksum_ok(s)
                    &&& spec_header_matches(h, s, version)
                },
                Err(TbfError::TruncatedHeader) => !sized,
                Err(TbfError::UnsupportedVersion(v)) => sized && v == version && version != 2,
                Err(TbfError::ChecksumMismatch(p, c)) => sized && version == 2 && p == le32_at(
                    s,
                    12,
                ) && c == computed_checksum(s) && p != c,
                Err(TbfError::BadTlvLength) => sized && version == 2 && spec_checksum_ok(s)
                    && spec_parse_tlvs(s, 16) is None,
                Err(_) => false,
            }
        }),
{
    let n = bytes.len();
    if n < 16 {
        return Err(TbfError::TruncatedHeader);
    }
    let header_size = read_u16_le(bytes, 2);
    if header_size as usize != n {
        return Err(TbfError::TruncatedHeader);
    }
    if version != 2 {
        return Err(TbfError::UnsupportedVersion(version));
    }
    let provided = read_u32_le(bytes, 12);
    let zeroed = zero_checksum(bytes);
    let computed = checksum_words(&zeroed);
    if provided != computed {
        return Err(TbfError::ChecksumMismatch(provided, computed));
    }
    let summary = match parse_tlvs(bytes, 16) {
        Some(summary) => summary,
        None => {
            return Err(TbfError::BadTlvLength);
        },
    };
    let total_size = read_u32_le(bytes, 4);
    let flags = read_u32_le(bytes, 8);
    let package_name = match summary.package_name_range {
        Some((off, len)) => {
            proof {
                assert(bytes@.len() == n);
                lemma_tlv_name_range_in_bounds(bytes@, 16);
            }
            let name_bytes = subvec(bytes, off, off + len);
            utf8_to_string(name_bytes.as_slice())
        },
        None => None,
    };
    Ok(
        TbfHeader {
            version,
            header_size,
            total_size,
            enabled: flags & 1 == 1,
            sticky: flags & 2 == 2,
            checksum: provided,
            main: summary.main,
            program: summary.program,
            package_name,
            kernel_version: summary.kernel_version,
            short_id: summary.short_id,
            tlvs: summary.tlvs,
        },
    )
}


/// A credentials record stored in a footer: its kind value and its raw
/// bytes.
#[derive(Clone, Debug)]
pub struct TbfFooterV2Credentials {
    pub kind: u16,
    pub data: Vec<u8>,
}

impl TbfFooterV2Credentials {
    pub fn get_type(&self) -> (r: u16)
        ensures
            r == self.kind,
    {
        self.kind
    }
}

/// One footer: a credentials record and the length its TLV declared.
#[derive(Clone, Debug)]
pub struct TbfFooter {
    pub credentials: TbfFooterV2Credentials,
    pub size: u32,
}

impl TbfFooter {
    pub fn new(credentials: TbfFooterV2Credentials, size: u32) -> (r: TbfFooter)
        ensures
            r.credentials == credentials,
            r.size == size,
    {
        TbfFooter { credentials, size }
    }
}

/// A footer as the spec-level parser yields it.
pub struct SpecTbfFooter {
    pub kind: u16,
    pub data: Seq<u8>,
    pub size: u32,
}

/// Whether an executable footer agrees with a spec-level one.
pub open spec fn footer_matches(f: TbfFooter, g: SpecTbfFooter) -> bool {
    &&& f.credentials.kind == g.kind
    &&& f.credentials.data@ == g.data
    &&& f.size == g.size
}

/// The first footer of the byte run starting at `off`, or `None` when the
/// run ends before a whole record.
pub open spec fn spec_parse_footer(s: Seq<u8>, off: int) -> Option<SpecTbfFooter> {
    if off < 0 || off + 4 > s.len() {
        None
    } else {
        let l = le16_at(s, off + 2);
        if off + 4 + l > s.len() {
            None
        } else {
            Some(
                SpecTbfFooter {
                    kind: le16_at(s, off),
                    data: s.subrange(off + 4, off + 4 + l),
                    size: le16_at(s, off + 2) as u32,
                },
            )
        }
    }
}

/// Decode the footer at the start of `bytes`, returning it together with
/// the length its TLV declared; the caller advances by that length plus
/// the four prelude bytes.
pub fn parse_tbf_footer(bytes: &Vec<u8>) -> (r: Result<(TbfFooterV2Credentials, u32), TbfError>)
    ensures
        r is Ok <==> spec_parse_footer(bytes@, 0) is Some,
        r is Ok ==> ({
            let g = spec_parse_footer(bytes@, 0)->0;
            &&& r->Ok_0.0.kind == g.kind
            &&& r->Ok_0.0.data@ == g.data
            &&& r->Ok_0.1 == g.size
        }),
        r is Err ==> r->Err_0 == TbfError::TruncatedFooter,
{
    let n = bytes.len();
    if n < 4 {
        return Err(TbfError::TruncatedFooter);
    }
    let kind = read_u16_le(bytes, 0);
    let l = read_u16_le(bytes, 2);
    if (l as usize) > n - 4 {
        return Err(TbfError::TruncatedFooter);
    }
    let data = subvec(bytes, 4, 4 + l as usize);
    Ok((TbfFooterV2Credentials { kind, data }, l as u32))
}

/// Every footer of the byte run starting at `off`, or `None` when the run
/// is not a whole number of records.
pub open spec fn spec_parse_footers(s: Seq<u8>, off: int) -> Option<Seq<SpecTbfFooter>>
    decreases s.len() - off,
{
    if off == s.len() {
        Some(Seq::empty())
    } else {
        match spec_parse_footer(s, off) {
            None => None,
            Some(f) => match spec_parse_footers(s, off + 4 + f.size) {
                None => None,
                Some(rest) => Some(seq![f] + rest),
            },
        }
    }
}

/// Decode the whole footer region of an application: footers are read one
/// after another until their lengths exactly exhaust the region.
pub fn parse_tbf_footers(region: &Vec<u8>) -> (r: Result<Vec<TbfFooter>, TbfError>)
    ensures
        r is Ok <==> spec_parse_footers(region@, 0) is Some,
        r is Ok ==> ({
            let gs = spec_parse_footers(region@, 0)->0;
            &&& r->Ok_0@.len() == gs.len()
            &&& forall|i: int| 0 <= i < gs.len() ==> footer_matches(#[trigger] r->Ok_0@[i], gs[i])
        }),
        r is Err ==> r->Err_0 == TbfError::TruncatedFooter,
{
    parse_footers_from(region, 0)
}

fn parse_footers_from(region: &Vec<u8>, off: usize) -> (r: Result<Vec<TbfFooter>, TbfError>)
    requires
        off <= region@.len(),
    ensures
        r is Ok <==> spec_parse_footers(region@, off as int) is Some,
        r is Ok ==> ({
            let gs = spec_parse_footers(region@, off as int)->0;
            &&& r->Ok_0@.len() == gs.len()
            &&& forall|i: int| 0 <= i < gs.len() ==> footer_matches(#[trigger] r->Ok_0@[i], gs[i])
        }),
        r is Err ==> r->Err_0 == TbfError::TruncatedFooter,
    decreases region@.len() - off,
{
    let n = region.len();
    if off == n {
        return Ok(Vec::new());
    }
    if n - off < 4 {
        return Err(TbfError::TruncatedFooter);
    }
    let kind = read_u16_le(region, off);
    let l = read_u16_le(region, off + 2);
    if (l as usize) > n - off - 4 {
        return Err(TbfError::TruncatedFooter);
    }
    let data = subvec(region, off + 4, off + 4 + l as usize);
    let footer = TbfFooter { credentials: TbfFooterV2Credentials { kind, data }, size: l as u32 };
    match parse_footers_from(region, off + 4 + l as usize) {
        Err(e) => Err(e),
        Ok(mut rest) => {
            rest.insert(0, footer);
            proof {
                let g = spec_parse_footer(region@, off as int)->0;
                let gs = spec_parse_footers(region@, off as int)->0;
                let grest = spec_parse_footers(region@, off + 4 + l)->0;
                assert(gs =~= seq![g] + grest);
                assert(forall|i: int|
                    0 <= i < gs.len() ==> footer_matches(#[trigger] rest@[i], gs[i]));
            }
            Ok(rest)
        },
    }
}


/// Total bytes a run of footers consumes: each record is its four prelude
/// bytes plus its declared length.
pub open spec fn spec_footers_total(gs: Seq<SpecTbfFooter>) -> int
    decreases gs.len(),
{
    if gs.len() == 0 {
        0
    } else {
        4 + gs[0].size + spec_footers_total(gs.skip(1))
    }
}

/// Footers consume their region exactly: when the region from `off` to the
/// end decodes, the records' lengths plus four prelude bytes each sum to
/// what was left of the region.  Consumption stops exactly at the end.
pub proof fn lemma_footers_consume_region(s: Seq<u8>, off: int)
    requires
        0 <= off <= s.len(),
        spec_parse_footers(s, off) is Some,
    ensures
        off + spec_footers_total(spec_parse_footers(s, off)->0) == s.len(),
    decreases s.len() - off,
{
    if off == s.len() {
    } else {
        let f = spec_parse_footer(s, off)->0;
        lemma_footers_consume_region(s, off + 4 + f.size);
        let gs = spec_parse_footers(s, off)->0;
        let rest = spec_parse_footers(s, off + 4 + f.size)->0;
        assert(gs =~= seq![f] + rest);
        assert(gs.skip(1) =~= rest);
    }
}

} // verus!
