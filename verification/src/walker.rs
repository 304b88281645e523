//! Application directory walker: follows the linked list of installed
//! applications on flash.  Each header's `total_size` is the link to the
//! next application; a header that does not parse as version 2, or whose
//! `header_size` is zero, ends the list.  A `total_size` of zero is a
//! protocol violation and aborts the walk instead of looping forever.

use vstd::prelude::*;

use crate::errors::TbfError;
use crate::errors::TockloaderError;
use crate::mock_probe::MockProbe;
use crate::tbf::footer_matches;
use crate::tbf::le16_at;
use crate::tbf::le32_at;
use crate::tbf::parse_tbf_footers;
use crate::tbf::parse_tbf_header;
use crate::tbf::parse_tbf_header_lengths;
use crate::tbf::spec_checksum_ok;
use crate::tbf::spec_header_matches;
use crate::tbf::spec_parse_footers;
use crate::tbf::spec_parse_tlvs;
use crate::tbf::TbfFooter;
use crate::tbf::TbfHeader;

verus! {

/// One installed application: its decoded header and footers.
#[derive(Clone, Debug)]
pub struct AppAttributes {
    pub tbf_header: TbfHeader,
    pub tbf_footers: Vec<TbfFooter>,
}

impl AppAttributes {
    pub fn new(header_data: TbfHeader, footers_data: Vec<TbfFooter>) -> (r: AppAttributes)
        ensures
            r.tbf_header == header_data,
            r.tbf_footers == footers_data,
    {
        AppAttributes { tbf_header: header_data, tbf_footers: footers_data }
    }
}

/// Where the binary of a header ends: what its Program record says, or
/// the whole `total_size` when there is none (then there are no footers).
pub open spec fn spec_header_binary_end(header: Seq<u8>) -> int {
    match spec_parse_tlvs(header, 16)->0.program {
        Some(p) => p.binary_end_offset as int,
        None => le32_at(header, 4) as int,
    }
}

/// The addresses of the applications installed in `flash` (whose first
/// byte sits at address `base`), starting at `addr` and following each
/// header's `total_size`.  `None` when the walk fails: a read outside the
/// image, a zero `total_size`, or a header or footer that does not
/// decode.  `Some` ends at the first header that is not version 2 or has
/// a zero `header_size`.
pub open spec fn spec_walk(flash: Seq<u8>, base: int, addr: int) -> Option<Seq<int>>
    decreases
            (if addr <= base + flash.len() {
                base + flash.len() - addr
            } else {
                0
            }),
{
    let off = addr - base;
    if off < 0 || off + 8 > flash.len() {
        None
    } else if le16_at(flash, off) != 2 || le16_at(flash, off + 2) == 0 {
        Some(Seq::empty())
    } else {
        let hs = le16_at(flash, off + 2) as int;
        let ts = le32_at(flash, off + 4) as int;
        if ts == 0 {
            None
        } else if hs < 16 || off + hs > flash.len() {
            None
        } else {
            let header = flash.subrange(off, off + hs);
            if !(spec_checksum_ok(header) && spec_parse_tlvs(header, 16) is Some) {
                None
            } else {
                let be = spec_header_binary_end(header);
                if !(16 <= be && be <= ts && off + ts <= flash.len()) {
                    None
                } else if spec_parse_footers(flash.subrange(off + be, off + ts), 0) is None {
                    None
                } else {
                    match spec_walk(flash, base, addr + ts) {
                        None => None,
                        Some(rest) => Some(seq![addr] + rest),
                    }
                }
            }
        }
    }
}

/// Whether one returned entry is exactly what the flash says at its
/// address: the header decoded from its `header_size` bytes there, and the
/// footers decoded from the region between the binary's end and
/// `total_size`, in order and whole.
pub open spec fn app_entry_matches(flash: Seq<u8>, base: int, a: AppAttributes, addr: int) -> bool {
    let off = addr - base;
    let hs = le16_at(flash, off + 2) as int;
    let ts = le32_at(flash, off + 4) as int;
    let header = flash.subrange(off, off + hs);
    let be = spec_header_binary_end(header);
    let region = flash.subrange(off + be, off + ts);
    &&& spec_header_matches(a.tbf_header, header, 2)
    &&& spec_parse_footers(region, 0) is Some
    &&& a.tbf_footers@.len() == spec_parse_footers(region, 0)->0.len()
    &&& forall|j: int|
        0 <= j < a.tbf_footers@.len() ==> footer_matches(
            #[trigger] a.tbf_footers@[j],
            spec_parse_footers(region, 0)->0[j],
        )
}

/// Walk the directory of installed applications of a flash image,
/// decoding each header and its footers.  Succeeds exactly when the chain
/// of headers is clean and reaches a terminating header inside the image.
pub fn read_apps_data(probe: &MockProbe, addr: u64) -> (r: Result<
    Vec<AppAttributes>,
    TockloaderError,
>)
    requires
        probe.wf(),
    ensures
        ({
            let walked = spec_walk(probe.memory@, probe.start_address as int, addr as int);
            match r {
                Ok(apps) => walked is Some && apps@.len() == walked->0.len() && (forall|i: int|
                    0 <= i < apps@.len() ==> {
                        let off = walked->0[i] - probe.start_address;
                        &&& (#[trigger] apps@[i]).tbf_header.version == 2
                        &&& apps@[i].tbf_header.header_size == le16_at(probe.memory@, off + 2)
                        &&& apps@[i].tbf_header.total_size == le32_at(probe.memory@, off + 4)
                        &&& app_entry_matches(
                            probe.memory@,
                            probe.start_address as int,
                            apps@[i],
                            walked->0[i],
                        )
                    }),
                Err(_) => walked is None,
            }
        }),
{
    let ghost flash = probe.memory@;
    let ghost base = probe.start_address as int;
    let mut apps: Vec<AppAttributes> = Vec::new();
    let ghost mut done: Seq<int> = Seq::empty();
    let mut cur: u64 = addr;
    proof {
        assert(Seq::empty() + spec_walk(flash, base, addr as int)->0 =~= spec_walk(
            flash,
            base,
            addr as int,
        )->0);
    }
    loop
        invariant
            probe.wf(),
            flash == probe.memory@,
            base == probe.start_address as int,
            apps@.len() == done.len(),
            forall|i: int|
                0 <= i < apps@.len() ==> {
                    let off = done[i] - base;
                    &&& (#[trigger] apps@[i]).tbf_header.version == 2
                    &&& apps@[i].tbf_header.header_size == le16_at(flash, off + 2)
                    &&& apps@[i].tbf_header.total_size == le32_at(flash, off + 4)
                    &&& app_entry_matches(flash, base, apps@[i], done[i])
                },
            spec_walk(flash, base, cur as int) is Some ==> (spec_walk(flash, base, addr as int)
                is Some && spec_walk(flash, base, addr as int)->0 == done + spec_walk(
                flash,
                base,
                cur as int,
            )->0),
            spec_walk(flash, base, cur as int) is None ==> spec_walk(flash, base, addr as int)
                is None,
        decreases
                (if cur as int <= base + flash.len() {
                    base + flash.len() - cur as int
                } else {
                    0
                }),
    {
        let ghost off = cur as int - base;
        let window = match probe.read(cur, 8) {
            Ok(w) => w,
            Err(e) => {
                return Err(e);
            },
        };
        proof {
            assert(window@.len() == 8);
            assert(forall|k: int| 0 <= k < 8 ==> window@[k] == flash[off + k]);
            assert(le16_at(window@, 0) == le16_at(flash, off));
            assert(le16_at(window@, 2) == le16_at(flash, off + 2));
            assert(le32_at(window@, 4) == le32_at(flash, off + 4));
        }
        let (version, header_size, total_size) = match parse_tbf_header_lengths(&window) {
            Ok(t) => t,
            Err(_) => {
                proof {
                    assert(spec_walk(flash, base, cur as int) == Some(Seq::<int>::empty()));
                    assert(done + Seq::<int>::empty() =~= done);
                }
                return Ok(apps);
            },
        };
        if header_size == 0 {
            proof {
                assert(spec_walk(flash, base, cur as int) == Some(Seq::<int>::empty()));
                assert(done + Seq::<int>::empty() =~= done);
            }
            return Ok(apps);
        }
        if total_size == 0 {
            return Err(TockloaderError::ParsingError(TbfError::ZeroTotalSize));
        }
        if header_size < 16 {
            return Err(TockloaderError::ParsingError(TbfError::TruncatedHeader));
        }
        let header_bytes = match probe.read(cur, header_size as usize) {
            Ok(b) => b,
            Err(e) => {
                return Err(e);
            },
        };
        proof {
            assert(header_bytes@ =~= flash.subrange(off, off + header_size));
        }
        let header = match parse_tbf_header(&header_bytes, version) {
            Ok(h) => h,
            Err(e) => {
                proof {
                    let hseq = flash.subrange(off, off + header_size);
                    assert(le16_at(hseq, 2) == le16_at(flash, off + 2));
                }
                return Err(TockloaderError::ParsingError(e));
            },
        };
        let binary_end = header.get_binary_end();
        proof {
            let hseq = flash.subrange(off, off + header_size);
            assert(le32_at(hseq, 4) == le32_at(flash, off + 4));
            assert(header.total_size == total_size);
            assert(binary_end == spec_header_binary_end(hseq));
        }
        if binary_end < 16 || binary_end > total_size {
            return Err(TockloaderError::ParsingError(TbfError::TruncatedFooter));
        }
        if binary_end as u64 > u64::MAX - cur {
            proof {
                assert(off + binary_end > flash.len());
            }
            return Err(TockloaderError::ParsingError(TbfError::TruncatedFooter));
        }
        let footer_region = match probe.read(cur + binary_end as u64, (total_size - binary_end)
            as usize) {
            Ok(b) => b,
            Err(e) => {
                return Err(e);
            },
        };
        proof {
            assert(footer_region@ =~= flash.subrange(off + binary_end, off + total_size));
        }
        let footers = match parse_tbf_footers(&footer_region) {
            Ok(f) => f,
            Err(e) => {
                return Err(TockloaderError::ParsingError(e));
            },
        };
        let ghost prev = cur as int;
        proof {
            let rest = spec_walk(flash, base, prev + total_size);
            if rest is Some {
                assert(spec_walk(flash, base, prev)->0 =~= seq![prev] + rest->0);
                assert(done + spec_walk(flash, base, prev)->0 =~= (done + seq![prev]) + rest->0);
            }
            done = done + seq![prev];
            let entry = AppAttributes { tbf_header: header, tbf_footers: footers };
            let hseq = flash.subrange(off, off + header_size);
            assert(spec_header_matches(entry.tbf_header, hseq, 2));
            assert(app_entry_matches(flash, base, entry, prev));
        }
        apps.push(AppAttributes { tbf_header: header, tbf_footers: footers });
        cur = cur + total_size as u64;
    }
}

/// The first free address after the installed applications, found by
/// following header lengths alone, without decoding headers or footers.
/// `None` when a read leaves the image or a `total_size` of zero would
/// stall the walk.
pub open spec fn spec_next_free(flash: Seq<u8>, base: int, addr: int) -> Option<int>
    decreases
            (if addr <= base + flash.len() {
                base + flash.len() - addr
            } else {
                0
            }),
{
    let off = addr - base;
    if off < 0 || off + 8 > flash.len() {
        None
    } else if le16_at(flash, off) != 2 || le16_at(flash, off + 2) == 0 {
        Some(addr)
    } else if le32_at(flash, off + 4) == 0 {
        None
    } else {
        spec_next_free(flash, base, addr + le32_at(flash, off + 4))
    }
}

/// Follow the application chain by lengths alone and return the first
/// free address, where a new application may be placed.
pub fn next_free_address(probe: &MockProbe, start: u64) -> (r: Result<u64, TockloaderError>)
    requires
        probe.wf(),
    ensures
        ({
            let nf = spec_next_free(probe.memory@, probe.start_address as int, start as int);
            match r {
                Ok(a) => nf == Some(a as int),
                Err(_) => nf is None,
            }
        }),
{
    let ghost flash = probe.memory@;
    let ghost base = probe.start_address as int;
    let mut cur: u64 = start;
    loop
        invariant
            probe.wf(),
            flash == probe.memory@,
            base == probe.start_address as int,
            spec_next_free(flash, base, cur as int) == spec_next_free(flash, base, start as int),
        decreases
                (if cur as int <= base + flash.len() {
                    base + flash.len() - cur as int
                } else {
                    0
                }),
    {
        let ghost off = cur as int - base;
        let window = match probe.read(cur, 8) {
            Ok(w) => w,
            Err(e) => {
                return Err(e);
            },
        };
        proof {
            assert(forall|k: int| 0 <= k < 8 ==> window@[k] == flash[off + k]);
            assert(le16_at(window@, 0) == le16_at(flash, off));
            assert(le16_at(window@, 2) == le16_at(flash, off + 2));
            assert(le32_at(window@, 4) == le32_at(flash, off + 4));
        }
        let (_version, header_size, total_size) = match parse_tbf_header_lengths(&window) {
            Ok(t) => t,
            Err(_) => {
                return Ok(cur);
            },
        };
        if header_size == 0 {
            return Ok(cur);
        }
        if total_size == 0 {
            return Err(TockloaderError::ParsingError(TbfError::ZeroTotalSize));
        }
        if total_size as u64 > u64::MAX - cur {
            proof {
                assert(spec_next_free(flash, base, cur as int + total_size) is None);
            }
            return Err(
                TockloaderError::Protocol(crate::errors::ProtocolError::IoFailure),
            );
        }
        cur = cur + total_size as u64;
    }
}


/// Everything one session learns about a board: its identity and its
/// installed applications.
#[derive(Clone, Debug)]
pub struct GeneralAttributes {
    pub system: crate::attributes::SystemAttributes,
    pub apps: Vec<AppAttributes>,
}

impl GeneralAttributes {
    pub fn new(
        system_attributes: crate::attributes::SystemAttributes,
        apps_attributes: Vec<AppAttributes>,
    ) -> (r: GeneralAttributes)
        ensures
            r.system == system_attributes,
            r.apps == apps_attributes,
    {
        GeneralAttributes { system: system_attributes, apps: apps_attributes }
    }
}

} // verus!
