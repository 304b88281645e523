//! Decoders for the board's attribute table and kernel-info block.
//!
//! The attribute table lives at a fixed flash offset: 16 slots of 64
//! bytes, each an 8-byte key, a one-byte value length, and up to 55 value
//! bytes, zero-padded.  The kernel-info block is 100 bytes ending just
//! before the application start address.  All functions here are pure;
//! the transport that fetches the bytes lives elsewhere.

use vstd::prelude::*;

use vstd::utf8::decode_utf8;
use vstd::utf8::valid_utf8;

use crate::errors::TockloaderError;
use crate::tbf::le32_at;
use crate::text::all_hex;
use crate::text::hex_prefix_val;
use crate::text::parse_hex_u64;
use crate::text::strip_hex_prefix;
use crate::text::strip_hex_prefixes;
use crate::text::trim_end_nuls;
use crate::text::trim_end_nuls_vec;
use crate::text::trim_nuls;
use crate::text::trim_nuls_vec;
use crate::text::utf8_to_string;

verus! {

/// One decoded attribute slot: its key and value, NUL padding removed.
#[derive(Clone, Debug)]
pub struct DecodedAttribute {
    pub key: String,
    pub value: String,
}

impl DecodedAttribute {
    pub fn new(decoded_key: String, decoded_value: String) -> (r: DecodedAttribute)
        ensures
            r.key == decoded_key,
            r.value == decoded_value,
    {
        DecodedAttribute { key: decoded_key, value: decoded_value }
    }
}

/// The declared value length of a 64-byte attribute slot.
pub open spec fn spec_slot_vlen(slot: Seq<u8>) -> u8 {
    slot[8]
}

/// Whether a 64-byte slot holds an attribute: its value length must be
/// 1 to 55 and both the key and the value, with their NUL padding dropped,
/// must decode as UTF-8.  Anything else marks an unused or undecodable
/// slot, which is skipped, not an error.
pub open spec fn spec_slot_valid(slot: Seq<u8>) -> bool {
    &&& 1 <= spec_slot_vlen(slot) <= 55
    &&& valid_utf8(trim_end_nuls(slot.subrange(0, 8)))
    &&& valid_utf8(trim_end_nuls(slot.subrange(9, 9 + spec_slot_vlen(slot))))
}

/// The key of a slot: the first 8 bytes, NUL padding dropped, decoded as
/// UTF-8.
pub open spec fn spec_slot_key(slot: Seq<u8>) -> Seq<char> {
    decode_utf8(trim_end_nuls(slot.subrange(0, 8)))
}

/// The value of a slot: `vlen` bytes from offset 9, NUL padding dropped,
/// decoded as UTF-8.
pub open spec fn spec_slot_value(slot: Seq<u8>) -> Seq<char> {
    decode_utf8(trim_end_nuls(slot.subrange(9, 9 + spec_slot_vlen(slot))))
}

/// Decode one 64-byte attribute slot; `None` for an unused slot or one
/// whose key or value is not UTF-8.
pub fn decode_attribute(step: &[u8]) -> (r: Option<DecodedAttribute>)
    requires
        step@.len() == 64,
    ensures
        r is Some <==> spec_slot_valid(step@),
        r is Some ==> r->0.key@ == spec_slot_key(step@),
        r is Some ==> r->0.value@ == spec_slot_value(step@),
{
    let vlen = step[8];
    if vlen > 55 || vlen == 0 {
        return None;
    }
    let mut key_bytes: Vec<u8> = Vec::new();
    let mut i: usize = 0;
    while i < 8
        invariant
            i <= 8,
            step@.len() == 64,
            key_bytes@ == step@.subrange(0, i as int),
        decreases 8 - i,
    {
        key_bytes.push(step[i]);
        proof {
            assert(step@.subrange(0, i + 1) =~= step@.subrange(0, i as int).push(
                step@[i as int],
            ));
        }
        i += 1;
    }
    let key_trimmed = trim_end_nuls_vec(key_bytes.as_slice());
    let key = match utf8_to_string(key_trimmed.as_slice()) {
        Some(k) => k,
        None => {
            return None;
        },
    };
    let mut value_bytes: Vec<u8> = Vec::new();
    let mut j: usize = 9;
    let end = 9 + vlen as usize;
    while j < end
        invariant
            9 <= j <= end,
            end == 9 + spec_slot_vlen(step@),
            1 <= spec_slot_vlen(step@) <= 55,
            step@.len() == 64,
            value_bytes@ == step@.subrange(9, j as int),
        decreases end - j,
    {
        value_bytes.push(step[j]);
        proof {
            assert(step@.subrange(9, j + 1) =~= step@.subrange(9, j as int).push(
                step@[j as int],
            ));
        }
        j += 1;
    }
    proof {
        assert(step@.subrange(9, 9 + spec_slot_vlen(step@)) =~= value_bytes@);
    }
    let value_trimmed = trim_end_nuls_vec(value_bytes.as_slice());
    let value = match utf8_to_string(value_trimmed.as_slice()) {
        Some(v) => v,
        None => {
            return None;
        },
    };
    Some(DecodedAttribute { key, value })
}

/// The board identity read once per session from the attribute table,
/// the bootloader-version string, and the kernel-info block.
#[derive(Clone, Debug)]
pub struct SystemAttributes {
    pub board: Option<String>,
    pub arch: Option<String>,
    pub appaddr: Option<u64>,
    pub boothash: Option<String>,
    pub bootloader_version: Option<String>,
    pub sentinel: Option<String>,
    pub kernel_version: Option<u64>,
    pub app_mem_start: Option<u32>,
    pub app_mem_len: Option<u32>,
    pub kernel_bin_start: Option<u32>,
    pub kernel_bin_len: Option<u32>,
}

/// The 64-byte slot `i` of the attribute table.
pub open spec fn spec_table_slot(table: Seq<u8>, i: int) -> Seq<u8> {
    table.subrange(64 * i, 64 * (i + 1))
}

/// The application start address a table encodes: the value of slot 2,
/// its leading `0x` pairs removed, read as hexadecimal.
pub open spec fn spec_table_appaddr(table: Seq<u8>) -> Option<u64> {
    let digits = strip_hex_prefixes(spec_slot_value(spec_table_slot(table, 2)));
    if digits.len() > 0 && all_hex(digits) && hex_prefix_val(digits, digits.len() as int)
        < 0x1_0000_0000_0000_0000 {
        Some(hex_prefix_val(digits, digits.len() as int) as u64)
    } else {
        None
    }
}

/// A record with nothing read yet: every field unset.
pub open spec fn spec_attrs_empty(a: SystemAttributes) -> bool {
    &&& a.board is None
    &&& a.arch is None
    &&& a.appaddr is None
    &&& a.boothash is None
    &&& a.bootloader_version is None
    &&& a.sentinel is None
    &&& a.kernel_version is None
    &&& a.app_mem_start is None
    &&& a.app_mem_len is None
    &&& a.kernel_bin_start is None
    &&& a.kernel_bin_len is None
}

/// What decoding the attribute table does to the identity fields: a valid
/// slot sets its field to the slot's decoded value, an unused or
/// undecodable slot leaves it unchanged, and the other fields stay.
pub open spec fn spec_table_decoded(
    pre: SystemAttributes,
    post: SystemAttributes,
    t: Seq<u8>,
) -> bool {
    &&& (if spec_slot_valid(spec_table_slot(t, 0)) {
        post.board is Some && post.board->0@ == spec_slot_value(spec_table_slot(t, 0))
    } else {
        post.board == pre.board
    })
    &&& (if spec_slot_valid(spec_table_slot(t, 1)) {
        post.arch is Some && post.arch->0@ == spec_slot_value(spec_table_slot(t, 1))
    } else {
        post.arch == pre.arch
    })
    &&& post.appaddr == (if spec_slot_valid(spec_table_slot(t, 2)) {
        spec_table_appaddr(t)
    } else {
        pre.appaddr
    })
    &&& (if spec_slot_valid(spec_table_slot(t, 3)) {
        post.boothash is Some && post.boothash->0@ == spec_slot_value(spec_table_slot(t, 3))
    } else {
        post.boothash == pre.boothash
    })
    &&& post.bootloader_version == pre.bootloader_version
    &&& post.sentinel == pre.sentinel
    &&& post.kernel_version == pre.kernel_version
    &&& post.app_mem_start == pre.app_mem_start
    &&& post.app_mem_len == pre.app_mem_len
    &&& post.kernel_bin_start == pre.kernel_bin_start
    &&& post.kernel_bin_len == pre.kernel_bin_len
}

impl SystemAttributes {
    /// An empty record: nothing read yet.
    pub fn new() -> (r: SystemAttributes)
        ensures
            spec_attrs_empty(r),
    {
        SystemAttributes {
            board: None,
            arch: None,
            appaddr: None,
            boothash: None,
            bootloader_version: None,
            sentinel: None,
            kernel_version: None,
            app_mem_start: None,
            app_mem_len: None,
            kernel_bin_start: None,
            kernel_bin_len: None,
        }
    }

    /// Decode the fixed attribute table: slot 0 names the board, slot 1
    /// the architecture, slot 2 the application start address, slot 3 the
    /// boot hash.  An unused slot leaves its field unset.  The one error
    /// is a present start-address value that does not read as a
    /// hexadecimal number.
    pub fn decode_table(&mut self, table: &Vec<u8>) -> (r: Result<(), TockloaderError>)
        requires
            table@.len() == 1024,
        ensures
            ({
                let t = table@;
                match r {
                    Ok(()) => {
                        &&& !(spec_slot_valid(spec_table_slot(t, 2)) && spec_table_appaddr(t)
                            is None)
                        &&& spec_table_decoded(*old(self), *final(self), t)
                    },
                    Err(TockloaderError::MisconfiguredBoard(_)) => spec_slot_valid(
                        spec_table_slot(t, 2),
                    ) && spec_table_appaddr(t) is None,
                    Err(_) => false,
                }
            }),
    {
        let slot0 = crate::tbf::subvec(table, 0, 64);
        let slot1 = crate::tbf::subvec(table, 64, 128);
        let slot2 = crate::tbf::subvec(table, 128, 192);
        let slot3 = crate::tbf::subvec(table, 192, 256);
        proof {
            assert(slot0@ =~= spec_table_slot(table@, 0));
            assert(slot1@ =~= spec_table_slot(table@, 1));
            assert(slot2@ =~= spec_table_slot(table@, 2));
            assert(slot3@ =~= spec_table_slot(table@, 3));
        }
        if let Some(a) = decode_attribute(slot2.as_slice()) {
            let digits = strip_hex_prefix(a.value.as_str());
            match parse_hex_u64(digits) {
                Some(v) => {
                    self.appaddr = Some(v);
                },
                None => {
                    proof {
                        reveal_strlit("Invalid start address.");
                    }
                    return Err(
                        TockloaderError::MisconfiguredBoard(
                            String::from_str("Invalid start address."),
                        ),
                    );
                },
            }
        }
        if let Some(a) = decode_attribute(slot0.as_slice()) {
            self.board = Some(a.value);
        }
        if let Some(a) = decode_attribute(slot1.as_slice()) {
            self.arch = Some(a.value);
        }
        if let Some(a) = decode_attribute(slot3.as_slice()) {
            self.boothash = Some(a.value);
        }
        Ok(())
    }

    /// Record the 8-byte bootloader-version string, NUL padding removed
    /// from both ends.  Bytes that are not UTF-8 are an error: the data is
    /// taken as corrupted.
    pub fn set_bootloader_version(&mut self, raw: &Vec<u8>) -> (r: Result<(), TockloaderError>)
        requires
            raw@.len() == 8,
        ensures
            r is Ok <==> valid_utf8(trim_nuls(raw@)),
            r is Ok ==> final(self).bootloader_version is Some
                && final(self).bootloader_version->0@ == decode_utf8(trim_nuls(raw@)),
            r is Err ==> r->Err_0 is MisconfiguredBoard && final(self).bootloader_version == old(
                self,
            ).bootloader_version,
            final(self).board == old(self).board,
            final(self).arch == old(self).arch,
            final(self).appaddr == old(self).appaddr,
            final(self).boothash == old(self).boothash,
            final(self).sentinel == old(self).sentinel,
            final(self).kernel_version == old(self).kernel_version,
            final(self).app_mem_start == old(self).app_mem_start,
            final(self).app_mem_len == old(self).app_mem_len,
            final(self).kernel_bin_start == old(self).kernel_bin_start,
            final(self).kernel_bin_len == old(self).kernel_bin_len,
    {
        let trimmed = trim_nuls_vec(raw.as_slice());
        match utf8_to_string(trimmed.as_slice()) {
            Some(s) => {
                self.bootloader_version = Some(s);
                Ok(())
            },
            None => {
                proof {
                    reveal_strlit("Data may be corrupted. System attribute is not UTF-8.");
                }
                Err(
                    TockloaderError::MisconfiguredBoard(
                        String::from_str("Data may be corrupted. System attribute is not UTF-8."),
                    ),
                )
            },
        }
    }

    /// Where the 100-byte kernel-info block sits: 100 bytes before the
    /// application start address.  `None` until the start address is
    /// known, or when it is too small or too high to address the block
    /// through the 32-bit read command.
    pub fn kernel_info_address(&self) -> (r: Option<u32>)
        ensures
            r is Some <==> (self.appaddr is Some && self.appaddr->0 >= 100 && self.appaddr->0
                - 100 <= u32::MAX),
            r is Some ==> r->0 == self.appaddr->0 - 100,
    {
        match self.appaddr {
            Some(a) => {
                if a >= 100 && a - 100 <= 0xFFFF_FFFF {
                    Some((a - 100) as u32)
                } else {
                    None
                }
            },
            None => None,
        }
    }

    /// Decode the 100-byte kernel-info block: the sentinel text at bytes
    /// 96..100 (left unset when it is not UTF-8), the kernel version byte
    /// at 95, and the memory and kernel binary ranges.
    pub fn set_kernel_attributes(&mut self, raw: &Vec<u8>)
        requires
            raw@.len() == 100,
        ensures
            (if valid_utf8(raw@.subrange(96, 100)) {
                final(self).sentinel is Some && final(self).sentinel->0@ == decode_utf8(
                    raw@.subrange(96, 100),
                )
            } else {
                final(self).sentinel is None
            }),
            final(self).kernel_version == Some(raw@[95] as u64),
            final(self).app_mem_start == Some(le32_at(raw@, 80)),
            final(self).app_mem_len == Some(le32_at(raw@, 84)),
            final(self).kernel_bin_start == Some(le32_at(raw@, 68)),
            final(self).kernel_bin_len == Some(le32_at(raw@, 72)),
            final(self).board == old(self).board,
            final(self).arch == old(self).arch,
            final(self).appaddr == old(self).appaddr,
            final(self).boothash == old(self).boothash,
            final(self).bootloader_version == old(self).bootloader_version,
    {
        let sentinel_bytes = crate::tbf::subvec(raw, 96, 100);
        self.sentinel = utf8_to_string(sentinel_bytes.as_slice());
        self.kernel_version = Some(raw[95] as u64);
        self.app_mem_start = Some(crate::tbf::read_u32_le(raw, 80));
        self.app_mem_len = Some(crate::tbf::read_u32_le(raw, 84));
        self.kernel_bin_start = Some(crate::tbf::read_u32_le(raw, 68));
        self.kernel_bin_len = Some(crate::tbf::read_u32_le(raw, 72));
    }
}

/// The raw attribute strings of a board read over the debug probe, kept
/// as text until a caller interprets them.
#[derive(Clone, Debug)]
pub struct HardwareAttributes {
    pub board: Option<String>,
    pub arch: Option<String>,
    pub appaddr: Option<String>,
    pub boothash: Option<String>,
    pub bootloader_version: Option<String>,
    pub sentinel: Option<String>,
    pub kernel_version: Option<u64>,
    pub app_mem_start: Option<u32>,
    pub app_mem_len: Option<u32>,
    pub kernel_bin_start: Option<u32>,
    pub kernel_bin_len: Option<u32>,
}

impl HardwareAttributes {
    pub fn new() -> (r: HardwareAttributes)
        ensures
            r.board is None,
            r.arch is None,
            r.appaddr is None,
            r.boothash is None,
            r.bootloader_version is None,
            r.sentinel is None,
            r.kernel_version is None,
            r.app_mem_start is None,
            r.app_mem_len is None,
            r.kernel_bin_start is None,
            r.kernel_bin_len is None,
    {
        HardwareAttributes {
            board: None,
            arch: None,
            appaddr: None,
            boothash: None,
            bootloader_version: None,
            sentinel: None,
            kernel_version: None,
            app_mem_start: None,
            app_mem_len: None,
            kernel_bin_start: None,
            kernel_bin_len: None,
        }
    }
}

} // verus!
