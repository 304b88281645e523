//! The orchestrator: one state machine that sequences connecting, reading
//! the board identity, checking compatibility, walking the application
//! directory, planning, and writing pages.  It decides; the caller owns
//! the transport, performs each requested exchange, and hands the answer
//! back.  The list and info operations reuse the same prefix without
//! writing anything.

use vstd::prelude::*;

use crate::attributes::spec_attrs_empty;
use crate::attributes::spec_table_appaddr;
use crate::attributes::spec_table_decoded;
use crate::attributes::spec_slot_valid;
use crate::attributes::spec_table_slot;
use crate::attributes::SystemAttributes;
use crate::errors::InstallError;
use crate::errors::TbfError;
use crate::errors::TockloaderError;
use crate::planner::plan;
use crate::planner::plan_matches;
use crate::planner::spec_align_up;
use crate::planner::spec_pad_to_page;
use crate::planner::FlashPlan;
use crate::tab::spec_first_binary;
use crate::tab::Tab;
use crate::tbf::footer_matches;
use crate::tbf::le16_at;
use crate::tbf::le32_at;
use crate::tbf::parse_tbf_footers;
use crate::tbf::parse_tbf_header;
use crate::tbf::parse_tbf_header_lengths;
use crate::tbf::spec_checksum_ok;
use crate::tbf::spec_header_matches;
use crate::tbf::spec_parse_footers;
use crate::tbf::spec_parse_tlvs;
use crate::tbf::subvec;
use crate::tbf::TbfHeader;
use crate::walker::spec_header_binary_end;
use crate::walker::AppAttributes;

verus! {

/// The page size of the supported boards' flash.
pub const PAGE_SIZE: usize = 512;

/// How many times one connection round pings before giving up.
pub const PING_BUDGET: u8 = 30;

/// What the caller must do next on the transport.
pub enum Request {
    /// Send a ping frame and read the two header bytes back.
    Ping { sync: bool },
    /// Sleep briefly, then ping once more: the one resynchronisation
    /// retry a session makes before treating the link as unusable.
    SleepThenPing,
    /// Read `length` bytes at `address` and hand back the de-escaped
    /// payload.
    ReadRange { address: u32, length: u16 },
    /// Write one page of data at `address`; expect an OK response.
    WritePage { address: u32, data: Vec<u8> },
    /// Erase the page at `address`, which terminates the application
    /// chain; expect an OK response.
    ErasePage { address: u32 },
}

/// What came back from the transport.
pub enum Reply {
    /// The response code byte of a ping, write or erase exchange.
    Code(u8),
    /// The de-escaped payload of a read exchange.
    Data(Vec<u8>),
}

/// Where the install flow stands.
pub enum Phase {
    /// Pinging until the bootloader answers Pong.
    Connect { attempts: u8, second_round: bool },
    /// Waiting for the 1024-byte attribute table.
    Table,
    /// Waiting for the 8-byte bootloader version string.
    BootloaderVersion,
    /// Waiting for the 100-byte kernel-info block.
    KernelBlock,
    /// Following the application chain; the next header window is read at
    /// `address`.
    Walk { address: u64 },
    /// Writing the planned pages, the next being `pages_to_write[next]`.
    WritePages { flash_plan: FlashPlan, next: usize },
    /// Waiting for the final erase that terminates the chain.
    Terminate { flash_plan: FlashPlan },
    /// Nothing left to do.
    Done,
}

/// The deciding half of an install: it owns the package and the growing
/// board identity, and turns each reply into the next request.
pub struct InstallFlow {
    pub tab: Tab,
    pub attrs: SystemAttributes,
    pub phase: Phase,
}

/// A plan the write phase can rely on: whole pages, page indices inside
/// the padded binary, and every written address within the 32-bit space
/// the write command can carry.
pub open spec fn plan_wf(p: FlashPlan) -> bool {
    &&& p.page_size == PAGE_SIZE
    &&& p.padded_binary@.len() as int % (PAGE_SIZE as int) == 0
    &&& p.target_address + p.padded_binary@.len() <= u32::MAX
    &&& forall|k: int|
        0 <= k < p.pages_to_write@.len() ==> (p.pages_to_write@[k] + 1) * (PAGE_SIZE as int)
            <= p.padded_binary@.len()
}

/// The outcome of ending the walk at `address` and starting to write:
/// the exact error when the package holds no usable binary for the
/// architecture or the plan cannot be addressed through the 32-bit write
/// command, and otherwise the first planned page write, the plan pinned
/// to the planner's whole contract.
pub open spec fn start_outcome(
    tab: Tab,
    arch: Option<String>,
    address: u64,
    r: Result<Option<Request>, TockloaderError>,
    post_phase: Phase,
) -> bool {
    match arch {
        None => r is Err && r->Err_0 is MisconfiguredBoard,
        Some(arch_name) => match spec_first_binary(tab.tbf_files@, arch_name@) {
            None => r is Err && r->Err_0 is NoBinaryError,
            Some(i) => {
                let bin = tab.tbf_files@[i].data@;
                if bin.len() == 0 || bin.len() > 255 * (PAGE_SIZE as int) {
                    r is Err && r->Err_0 is MisconfiguredBoard
                } else if address + bin.len() > u64::MAX {
                    r is Err && r->Err_0 is MisconfiguredBoard
                } else if spec_align_up(address as int, bin.len() as int) + spec_pad_to_page(
                    bin,
                    PAGE_SIZE as int,
                ).len() > u32::MAX {
                    r is Err && r->Err_0 is MisconfiguredBoard
                } else {
                    &&& r is Ok
                    &&& (match (r->Ok_0, post_phase) {
                        (
                            Some(Request::WritePage { address: wa, data: wd }),
                            Phase::WritePages { flash_plan: p, next: n },
                        ) => {
                            &&& plan_matches(p, address as int, bin, PAGE_SIZE as int)
                            &&& n == 0
                            &&& p.pages_to_write@.len() > 0
                            &&& wd@ == p.padded_binary@.subrange(
                                p.pages_to_write@[0] * PAGE_SIZE,
                                (p.pages_to_write@[0] + 1) * PAGE_SIZE,
                            )
                            &&& wa == p.target_address + p.pages_to_write@[0] * PAGE_SIZE
                        },
                        _ => false,
                    })
                }
            },
        },
    }
}

impl InstallFlow {
    /// What every reachable flow state satisfies: a stored plan is usable
    /// and there is still a page to write.
    pub open spec fn inv(&self) -> bool {
        match self.phase {
            Phase::WritePages { flash_plan, next } => plan_wf(flash_plan) && next
                < flash_plan.pages_to_write@.len(),
            _ => true,
        }
    }
}

/// The response code byte that acknowledges a write or erase.
pub const OK_CODE: u8 = 0x15;

/// The response code byte of Pong.
pub const PONG_CODE: u8 = 0x11;

impl InstallFlow {
    /// Start an install: the first exchange is a synchronising ping.
    pub fn new(tab: Tab) -> (r: (InstallFlow, Request))
        ensures
            r.0.phase == (Phase::Connect { attempts: 0u8, second_round: false }),
            r.0.inv(),
            r.0.tab == tab,
            spec_attrs_empty(r.0.attrs),
            r.1 == (Request::Ping { sync: true }),
    {
        (
            InstallFlow {
                tab,
                attrs: SystemAttributes::new(),
                phase: Phase::Connect { attempts: 0, second_round: false },
            },
            Request::Ping { sync: true },
        )
    }

    /// Feed the reply of the last exchange and get the next request, or
    /// `None` when the install has finished.  Connecting retries within
    /// its budget; every later failure aborts the flow.
    pub fn step(&mut self, reply: Reply) -> (r: Result<Option<Request>, TockloaderError>)
        requires
            old(self).inv(),
        ensures
            final(self).inv(),
            ({
                match old(self).phase {
                    Phase::Connect { attempts, second_round } => match reply {
                        Reply::Code(c) => {
                            if c == PONG_CODE {
                                &&& r is Ok
                                &&& r->Ok_0 == Some(
                                    Request::ReadRange { address: 0x600u32, length: 1024u16 },
                                )
                                &&& final(self).phase is Table
                            } else if attempts + 1 < PING_BUDGET {
                                &&& r is Ok
                                &&& r->Ok_0 == Some(Request::Ping { sync: false })
                                &&& final(self).phase == (Phase::Connect {
                                    attempts: (attempts + 1) as u8,
                                    second_round,
                                })
                            } else if !second_round {
                                &&& r is Ok
                                &&& r->Ok_0 == Some(Request::SleepThenPing)
                                &&& final(self).phase == (Phase::Connect {
                                    attempts: 0u8,
                                    second_round: true,
                                })
                            } else {
                                r is Err && r->Err_0 is BootloaderError
                            }
                        },
                        _ => r is Err,
                    },
                    Phase::Table => match reply {
                        Reply::Data(data) => {
                            if data@.len() != 1024 {
                                r is Err && r->Err_0 is Protocol
                            } else if spec_slot_valid(spec_table_slot(data@, 2))
                                && spec_table_appaddr(data@) is None {
                                r is Err && r->Err_0 is MisconfiguredBoard
                            } else {
                                &&& r is Ok
                                &&& r->Ok_0 == Some(
                                    Request::ReadRange { address: 0x40Eu32, length: 8u16 },
                                )
                                &&& final(self).phase is BootloaderVersion
                                &&& spec_table_decoded(old(self).attrs, final(self).attrs, data@)
                            }
                        },
                        _ => r is Err,
                    },
                    Phase::BootloaderVersion => match reply {
                        Reply::Data(data) => {
                            if data@.len() != 8 {
                                r is Err && r->Err_0 is Protocol
                            } else if !vstd::utf8::valid_utf8(crate::text::trim_nuls(data@)) {
                                r is Err && r->Err_0 is MisconfiguredBoard
                            } else {
                                &&& final(self).attrs.appaddr == old(self).attrs.appaddr
                                &&& (match old(self).attrs.appaddr {
                                    Some(a) => if a >= 100 && a - 100 <= u32::MAX {
                                        r is Ok && r->Ok_0 == Some(
                                            Request::ReadRange {
                                                address: (a - 100) as u32,
                                                length: 100u16,
                                            },
                                        ) && final(self).phase is KernelBlock
                                    } else {
                                        r is Err && r->Err_0 is MisconfiguredBoard
                                    },
                                    None => r is Err && r->Err_0 is MisconfiguredBoard,
                                })
                            }
                        },
                        _ => r is Err,
                    },
                    Phase::KernelBlock => match reply {
                        Reply::Data(data) => {
                            if data@.len() != 100 {
                                r is Err && r->Err_0 is Protocol
                            } else {
                                &&& final(self).attrs.appaddr == old(self).attrs.appaddr
                                &&& (match old(self).attrs.board {
                                    None => r is Err && r->Err_0 is MisconfiguredBoard,
                                    Some(board) => if !crate::tab::spec_compatible_with_board(
                                        old(self).tab.metadata,
                                        board@,
                                    ) {
                                        r is Err && r->Err_0 is Install
                                            && r->Err_0->Install_0
                                            == InstallError::IncompatibleBoard
                                    } else {
                                        match old(self).attrs.appaddr {
                                            None => r is Err && r->Err_0 is MisconfiguredBoard,
                                            Some(a) => if a <= u32::MAX {
                                                r is Ok && r->Ok_0 == Some(
                                                    Request::ReadRange {
                                                        address: a as u32,
                                                        length: 200u16,
                                                    },
                                                ) && final(self).phase == (Phase::Walk {
                                                    address: a,
                                                })
                                            } else {
                                                r is Err && r->Err_0 is MisconfiguredBoard
                                            },
                                        }
                                    },
                                })
                            }
                        },
                        _ => r is Err,
                    },
                    Phase::Walk { address } => match reply {
                        Reply::Data(data) => {
                            if data@.len() < 8 {
                                r is Err && r->Err_0 is Protocol
                            } else if le16_at(data@, 0) != 2 || le16_at(data@, 2) == 0 {
                                // End of the chain: plan and start writing.
                                start_outcome(
                                    old(self).tab,
                                    old(self).attrs.arch,
                                    address,
                                    r,
                                    final(self).phase,
                                )
                            } else if le32_at(data@, 4) == 0 {
                                r is Err && r->Err_0 == TockloaderError::ParsingError(
                                    TbfError::ZeroTotalSize,
                                )
                            } else {
                                if address + le32_at(data@, 4) <= u32::MAX {
                                    &&& r is Ok
                                    &&& r->Ok_0 == Some(
                                        Request::ReadRange {
                                            address: (address + le32_at(data@, 4)) as u32,
                                            length: 200u16,
                                        },
                                    )
                                    &&& final(self).phase == (Phase::Walk {
                                        address: (address + le32_at(data@, 4)) as u64,
                                    })
                                } else {
                                    r is Err && r->Err_0 is MisconfiguredBoard
                                }
                            }
                        },
                        _ => r is Err,
                    },
                    Phase::WritePages { flash_plan, next } => match reply {
                        Reply::Code(c) => {
                            if c != OK_CODE {
                                r is Err && r->Err_0 == TockloaderError::Install(
                                    InstallError::PageWriteFailed(next as usize, c),
                                )
                            } else {
                                // Acknowledged: the next planned page goes out,
                                // or the terminating erase once every planned
                                // page is written.
                                &&& r is Ok
                                &&& (match (r->Ok_0, final(self).phase) {
                                    (
                                        Some(Request::WritePage { address: wa, data: wd }),
                                        Phase::WritePages { flash_plan: p, next: n },
                                    ) => {
                                        &&& p == flash_plan
                                        &&& n == next + 1
                                        &&& n < flash_plan.pages_to_write@.len()
                                        &&& wd@ == flash_plan.padded_binary@.subrange(
                                            flash_plan.pages_to_write@[n as int] * PAGE_SIZE,
                                            (flash_plan.pages_to_write@[n as int] + 1) * PAGE_SIZE,
                                        )
                                        &&& wa == flash_plan.target_address
                                            + flash_plan.pages_to_write@[n as int] * PAGE_SIZE
                                    },
                                    (
                                        Some(Request::ErasePage { address: ea }),
                                        Phase::Terminate { flash_plan: p },
                                    ) => {
                                        &&& p == flash_plan
                                        &&& next + 1 >= flash_plan.pages_to_write@.len()
                                        &&& ea == flash_plan.target_address
                                            + flash_plan.padded_binary@.len()
                                    },
                                    _ => false,
                                })
                            }
                        },
                        _ => r is Err,
                    },
                    Phase::Terminate { .. } => match reply {
                        Reply::Code(c) => {
                            if c != OK_CODE {
                                r is Err && r->Err_0 == TockloaderError::BootloaderError(c)
                            } else {
                                r is Ok && r->Ok_0 is None && final(self).phase is Done
                            }
                        },
                        _ => r is Err,
                    },
                    Phase::Done => r is Ok && r->Ok_0 is None && final(self).phase is Done,
                }
            }),
    {
        let phase = replace_value(&mut self.phase, Phase::Done);
        match (phase, reply) {
            (Phase::Connect { attempts, second_round }, Reply::Code(c)) => {
                if c == PONG_CODE {
                    self.phase = Phase::Table;
                    Ok(Some(Request::ReadRange { address: 0x600, length: 1024 }))
                } else if attempts < PING_BUDGET - 1 {
                    self.phase = Phase::Connect { attempts: attempts + 1, second_round };
                    Ok(Some(Request::Ping { sync: false }))
                } else if !second_round {
                    self.phase = Phase::Connect { attempts: 0, second_round: true };
                    Ok(Some(Request::SleepThenPing))
                } else {
                    Err(TockloaderError::BootloaderError(c))
                }
            },
            (Phase::Table, Reply::Data(data)) => {
                if data.len() != 1024 {
                    return Err(
                        TockloaderError::Protocol(crate::errors::ProtocolError::WrongPayloadLength),
                    );
                }
                match self.attrs.decode_table(&data) {
                    Ok(()) => {
                        self.phase = Phase::BootloaderVersion;
                        Ok(Some(Request::ReadRange { address: 0x40E, length: 8 }))
                    },
                    Err(e) => Err(e),
                }
            },
            (Phase::BootloaderVersion, Reply::Data(data)) => {
                if data.len() != 8 {
                    return Err(
                        TockloaderError::Protocol(crate::errors::ProtocolError::WrongPayloadLength),
                    );
                }
                if let Err(e) = self.attrs.set_bootloader_version(&data) {
                    return Err(e);
                }
                match self.attrs.kernel_info_address() {
                    Some(address) => {
                        self.phase = Phase::KernelBlock;
                        Ok(Some(Request::ReadRange { address, length: 100 }))
                    },
                    None => {
                        proof {
                            reveal_strlit("No start address found.");
                        }
                        Err(
                            TockloaderError::MisconfiguredBoard(
                                String::from_str("No start address found."),
                            ),
                        )
                    },
                }
            },
            (Phase::KernelBlock, Reply::Data(data)) => {
                if data.len() != 100 {
                    return Err(
                        TockloaderError::Protocol(crate::errors::ProtocolError::WrongPayloadLength),
                    );
                }
                self.attrs.set_kernel_attributes(&data);
                let board = match &self.attrs.board {
                    Some(b) => b,
                    None => {
                        proof {
                            reveal_strlit("No board name found.");
                        }
                        return Err(
                            TockloaderError::MisconfiguredBoard(
                                String::from_str("No board name found."),
                            ),
                        );
                    },
                };
                if !self.tab.is_compatible_with_board(board) {
                    return Err(TockloaderError::Install(InstallError::IncompatibleBoard));
                }
                let appaddr = match self.attrs.appaddr {
                    Some(a) => a,
                    None => {
                        proof {
                            reveal_strlit("No start address found.");
                        }
                        return Err(
                            TockloaderError::MisconfiguredBoard(
                                String::from_str("No start address found."),
                            ),
                        );
                    },
                };
                if appaddr > 0xFFFF_FFFF {
                    proof {
                        reveal_strlit("Invalid start address.");
                    }
                    return Err(
                        TockloaderError::MisconfiguredBoard(
                            String::from_str("Invalid start address."),
                        ),
                    );
                }
                self.phase = Phase::Walk { address: appaddr };
                Ok(Some(Request::ReadRange { address: appaddr as u32, length: 200 }))
            },
            (Phase::Walk { address }, Reply::Data(data)) => {
                if data.len() < 8 {
                    return Err(
                        TockloaderError::Protocol(crate::errors::ProtocolError::WrongPayloadLength),
                    );
                }
                let window = subvec(&data, 0, 8);
                proof {
                    assert(window@ =~= data@.subrange(0, 8));
                    assert(le16_at(window@, 0) == le16_at(data@, 0));
                    assert(le16_at(window@, 2) == le16_at(data@, 2));
                    assert(le32_at(window@, 4) == le32_at(data@, 4));
                }
                let chain_continues = match parse_tbf_header_lengths(&window) {
                    Ok((_version, header_size, total_size)) => {
                        if header_size == 0 {
                            None
                        } else {
                            Some(total_size)
                        }
                    },
                    Err(_) => None,
                };
                match chain_continues {
                    Some(total_size) => {
                        if total_size == 0 {
                            return Err(TockloaderError::ParsingError(TbfError::ZeroTotalSize));
                        }
                        let next_address = if address <= 0xFFFF_FFFFu64 - total_size as u64 {
                            address + total_size as u64
                        } else {
                            proof {
                                reveal_strlit("Invalid start address.");
                            }
                            return Err(
                                TockloaderError::MisconfiguredBoard(
                                    String::from_str("Invalid start address."),
                                ),
                            );
                        };
                        self.phase = Phase::Walk { address: next_address };
                        Ok(Some(Request::ReadRange { address: next_address as u32, length: 200 }))
                    },
                    None => self.start_writing(address),
                }
            },
            (Phase::WritePages { flash_plan, next }, Reply::Code(c)) => {
                if c != OK_CODE {
                    return Err(
                        TockloaderError::Install(InstallError::PageWriteFailed(next, c)),
                    );
                }
                let page_count = flash_plan.pages_to_write.len();
                proof {
                    assert(next < page_count);
                }
                self.issue_page(flash_plan, next + 1)
            },
            (Phase::Terminate { .. }, Reply::Code(c)) => {
                if c != OK_CODE {
                    return Err(TockloaderError::BootloaderError(c));
                }
                self.phase = Phase::Done;
                Ok(None)
            },
            (Phase::Done, _) => Ok(None),
            (_, _) => Err(
                TockloaderError::Protocol(crate::errors::ProtocolError::WrongPayloadLength),
            ),
        }
    }

    /// The chain has ended at `address`: extract the binary for the
    /// board's architecture, compute the plan, and issue the first write.
    /// The alignment gap between `address` and the plan's target is left
    /// unwritten: it is assumed to hold the flash's erased value, and the
    /// walk's terminator is re-established by the final erase.
    fn start_writing(&mut self, address: u64) -> (r: Result<Option<Request>, TockloaderError>)
        requires
            old(self).inv(),
        ensures
            final(self).inv(),
            start_outcome(old(self).tab, old(self).attrs.arch, address, r, final(self).phase),
    {
        let arch = match &self.attrs.arch {
            Some(a) => a,
            None => {
                proof {
                    reveal_strlit("No architecture found.");
                }
                return Err(
                    TockloaderError::MisconfiguredBoard(
                        String::from_str("No architecture found."),
                    ),
                );
            },
        };
        let binary = match self.tab.extract_binary(arch.as_str()) {
            Ok(b) => b,
            Err(e) => {
                return Err(e);
            },
        };
        if binary.len() == 0 || binary.len() > 255 * PAGE_SIZE {
            proof {
                reveal_strlit("Application binary size out of range.");
            }
            return Err(
                TockloaderError::MisconfiguredBoard(
                    String::from_str("Application binary size out of range."),
                ),
            );
        }
        if address > u64::MAX - binary.len() as u64 {
            proof {
                reveal_strlit("Invalid start address.");
            }
            return Err(
                TockloaderError::MisconfiguredBoard(String::from_str("Invalid start address.")),
            );
        }
        let flash_plan = plan(address, binary, PAGE_SIZE);
        if flash_plan.target_address > 0xFFFF_FFFFu64 - flash_plan.padded_binary.len() as u64 {
            proof {
                reveal_strlit("Write plan out of range.");
            }
            return Err(
                TockloaderError::MisconfiguredBoard(
                    String::from_str("Write plan out of range."),
                ),
            );
        }
        proof {
            assert(plan_wf(flash_plan));
        }
        self.issue_page(flash_plan, 0)
    }

    /// Issue the write of page `next` of the plan, or the terminating
    /// erase once every planned page is written.
    fn issue_page(&mut self, flash_plan: FlashPlan, next: usize) -> (r: Result<
        Option<Request>,
        TockloaderError,
    >)
        requires
            plan_wf(flash_plan),
            next <= flash_plan.pages_to_write@.len(),
        ensures
            r is Ok,
            final(self).inv(),
            (match (r->Ok_0, final(self).phase) {
                (Some(Request::WritePage { address, data }), Phase::WritePages {
                    flash_plan: p,
                    next: n,
                }) => {
                    &&& p == flash_plan
                    &&& n == next
                    &&& next < flash_plan.pages_to_write@.len()
                    &&& data@ == flash_plan.padded_binary@.subrange(
                        flash_plan.pages_to_write@[next as int] * PAGE_SIZE,
                        (flash_plan.pages_to_write@[next as int] + 1) * PAGE_SIZE,
                    )
                    &&& address == flash_plan.target_address + flash_plan.pages_to_write@[
                        next as int
                    ] * PAGE_SIZE
                },
                (Some(Request::ErasePage { address }), Phase::Terminate { flash_plan: p }) => {
                    &&& p == flash_plan
                    &&& next >= flash_plan.pages_to_write@.len()
                    &&& address == flash_plan.target_address
                        + flash_plan.padded_binary@.len()
                },
                _ => false,
            }),
    {
        if next >= flash_plan.pages_to_write.len() {
            // Every page is written: erase one page after the binary to
            // terminate the application chain.
            let erase_at = (flash_plan.target_address
                + flash_plan.padded_binary.len() as u64) as u32;
            let request = Request::ErasePage { address: erase_at };
            self.phase = Phase::Terminate { flash_plan };
            return Ok(Some(request));
        }
        let page_index = flash_plan.pages_to_write[next];
        proof {
            assert((page_index as int + 1) * (PAGE_SIZE as int) == page_index as int * (
            PAGE_SIZE as int) + PAGE_SIZE as int) by (nonlinear_arith);
        }
        let start = page_index as usize * PAGE_SIZE;
        let data = subvec(&flash_plan.padded_binary, start, start + PAGE_SIZE);
        let page_address = (flash_plan.target_address + start as u64) as u32;
        self.phase = Phase::WritePages { flash_plan, next };
        Ok(Some(Request::WritePage { address: page_address, data }))
    }
}

/// Where a read-only session stands.
pub enum SessionPhase {
    /// Pinging until the bootloader answers Pong.
    Connect { attempts: u8, second_round: bool },
    /// Waiting for the 1024-byte attribute table.
    Table,
    /// Waiting for the 8-byte bootloader version string.
    BootloaderVersion,
    /// Waiting for the 100-byte kernel-info block.
    KernelBlock,
    /// Waiting for the probe window of the application at `address`.
    WalkWindow { address: u64 },
    /// Waiting for the `header_size` header bytes of the application at
    /// `address`, whose chain link is `total_size`.
    WalkHeader { address: u64, total_size: u32 },
    /// Waiting for the footer region of the application at `address`.
    WalkFooters { address: u64, total_size: u32, header: TbfHeader },
    /// Nothing left to read.
    Done,
}

/// The deciding half of the read-only list and info operations: the same
/// connect-and-read prefix as an install, then the full directory walk,
/// decoding each application's header and footers, writing nothing.
pub struct SessionFlow {
    pub attrs: SystemAttributes,
    pub apps: Vec<AppAttributes>,
    pub phase: SessionPhase,
}

impl SessionFlow {
    /// Start a read-only session: the first exchange is a synchronising
    /// ping.
    pub fn new() -> (r: (SessionFlow, Request))
        ensures
            r.0.phase == (SessionPhase::Connect { attempts: 0u8, second_round: false }),
            spec_attrs_empty(r.0.attrs),
            r.0.apps@.len() == 0,
            r.1 == (Request::Ping { sync: true }),
    {
        (
            SessionFlow {
                attrs: SystemAttributes::new(),
                apps: Vec::new(),
                phase: SessionPhase::Connect { attempts: 0, second_round: false },
            },
            Request::Ping { sync: true },
        )
    }

    /// Feed the reply of the last exchange and get the next request, or
    /// `None` when the chain's terminating header was reached.  The
    /// decoded board identity then stands in `attrs` and the applications
    /// in `apps`.
    pub fn step(&mut self, reply: Reply) -> (r: Result<Option<Request>, TockloaderError>)
        ensures
            (!(old(self).phase is WalkHeader) && !(old(self).phase is WalkFooters))
                ==> final(self).apps == old(self).apps,
            ({
                match old(self).phase {
                    SessionPhase::Connect { attempts, second_round } => match reply {
                        Reply::Code(c) => {
                            if c == PONG_CODE {
                                &&& r is Ok
                                &&& r->Ok_0 == Some(
                                    Request::ReadRange { address: 0x600u32, length: 1024u16 },
                                )
                                &&& final(self).phase is Table
                            } else if attempts + 1 < PING_BUDGET {
                                &&& r is Ok
                                &&& r->Ok_0 == Some(Request::Ping { sync: false })
                                &&& final(self).phase == (SessionPhase::Connect {
                                    attempts: (attempts + 1) as u8,
                                    second_round,
                                })
                            } else if !second_round {
                                &&& r is Ok
                                &&& r->Ok_0 == Some(Request::SleepThenPing)
                                &&& final(self).phase == (SessionPhase::Connect {
                                    attempts: 0u8,
                                    second_round: true,
                                })
                            } else {
                                r is Err && r->Err_0 is BootloaderError
                            }
                        },
                        _ => r is Err,
                    },
                    SessionPhase::Table => match reply {
                        Reply::Data(data) => {
                            if data@.len() != 1024 {
                                r is Err && r->Err_0 is Protocol
                            } else if spec_slot_valid(spec_table_slot(data@, 2))
                                && spec_table_appaddr(data@) is None {
                                r is Err && r->Err_0 is MisconfiguredBoard
                            } else {
                                &&& r is Ok
                                &&& r->Ok_0 == Some(
                                    Request::ReadRange { address: 0x40Eu32, length: 8u16 },
                                )
                                &&& final(self).phase is BootloaderVersion
                                &&& spec_table_decoded(old(self).attrs, final(self).attrs, data@)
                            }
                        },
                        _ => r is Err,
                    },
                    SessionPhase::BootloaderVersion => match reply {
                        Reply::Data(data) => {
                            if data@.len() != 8 {
                                r is Err && r->Err_0 is Protocol
                            } else if !vstd::utf8::valid_utf8(crate::text::trim_nuls(data@)) {
                                r is Err && r->Err_0 is MisconfiguredBoard
                            } else {
                                &&& final(self).attrs.appaddr == old(self).attrs.appaddr
                                &&& (match old(self).attrs.appaddr {
                                    Some(a) => if a >= 100 && a - 100 <= u32::MAX {
                                        r is Ok && r->Ok_0 == Some(
                                            Request::ReadRange {
                                                address: (a - 100) as u32,
                                                length: 100u16,
                                            },
                                        ) && final(self).phase is KernelBlock
                                    } else {
                                        r is Err && r->Err_0 is MisconfiguredBoard
                                    },
                                    None => r is Err && r->Err_0 is MisconfiguredBoard,
                                })
                            }
                        },
                        _ => r is Err,
                    },
                    SessionPhase::KernelBlock => match reply {
                        Reply::Data(data) => {
                            if data@.len() != 100 {
                                r is Err && r->Err_0 is Protocol
                            } else {
                                match old(self).attrs.appaddr {
                                    None => r is Err && r->Err_0 is MisconfiguredBoard,
                                    Some(a) => if a <= u32::MAX {
                                        r is Ok && r->Ok_0 == Some(
                                            Request::ReadRange { address: a as u32, length: 200u16 },
                                        ) && final(self).phase == (SessionPhase::WalkWindow {
                                            address: a,
                                        })
                                    } else {
                                        r is Err && r->Err_0 is MisconfiguredBoard
                                    },
                                }
                            }
                        },
                        _ => r is Err,
                    },
                    SessionPhase::WalkWindow { address } => match reply {
                        Reply::Data(data) => {
                            if data@.len() < 8 {
                                r is Err && r->Err_0 is Protocol
                            } else if le16_at(data@, 0) != 2 || le16_at(data@, 2) == 0 {
                                // End of the chain: the session is complete.
                                &&& r is Ok
                                &&& r->Ok_0 is None
                                &&& final(self).phase is Done
                                &&& final(self).apps == old(self).apps
                                &&& final(self).attrs == old(self).attrs
                            } else if le32_at(data@, 4) == 0 {
                                r is Err && r->Err_0 == TockloaderError::ParsingError(
                                    TbfError::ZeroTotalSize,
                                )
                            } else if le16_at(data@, 2) < 16 {
                                r is Err && r->Err_0 == TockloaderError::ParsingError(
                                    TbfError::TruncatedHeader,
                                )
                            } else {
                                if address + le16_at(data@, 2) <= u32::MAX {
                                    &&& r is Ok
                                    &&& r->Ok_0 == Some(
                                        Request::ReadRange {
                                            address: address as u32,
                                            length: le16_at(data@, 2),
                                        },
                                    )
                                    &&& final(self).phase == (SessionPhase::WalkHeader {
                                        address,
                                        total_size: le32_at(data@, 4),
                                    })
                                } else {
                                    r is Err && r->Err_0 is MisconfiguredBoard
                                }
                            }
                        },
                        _ => r is Err,
                    },
                    SessionPhase::WalkHeader { address, total_size } => match reply {
                        Reply::Data(data) => {
                            let s = data@;
                            if !(s.len() >= 16 && le16_at(s, 2) == s.len() && spec_checksum_ok(s)
                                && spec_parse_tlvs(s, 16) is Some) {
                                r is Err && r->Err_0 is ParsingError
                            } else {
                                let be = spec_header_binary_end(s);
                                if !(16 <= be <= total_size && le32_at(s, 4) == total_size) {
                                    r is Err && r->Err_0 == TockloaderError::ParsingError(
                                        TbfError::TruncatedFooter,
                                    )
                                } else if be == total_size {
                                    // No footers: the entry is complete.
                                    if address + total_size <= u32::MAX {
                                        &&& r is Ok
                                        &&& final(self).phase == (SessionPhase::WalkWindow {
                                            address: (address + total_size) as u64,
                                        })
                                        &&& final(self).apps@.len() == old(self).apps@.len() + 1
                                        &&& spec_header_matches(
                                            final(self).apps@.last().tbf_header,
                                            s,
                                            2,
                                        )
                                        &&& final(self).apps@.last().tbf_footers@.len() == 0
                                        &&& final(self).apps@.take(old(self).apps@.len() as int)
                                            == old(self).apps@
                                        &&& r->Ok_0 == Some(
                                            Request::ReadRange {
                                                address: (address + total_size) as u32,
                                                length: 200u16,
                                            },
                                        )
                                    } else {
                                        r is Err && r->Err_0 is MisconfiguredBoard
                                    }
                                } else {
                                    if total_size - be <= 0xFFFF && address + be <= u32::MAX {
                                        &&& r is Ok
                                        &&& (match final(self).phase {
                                            SessionPhase::WalkFooters {
                                                address: a2,
                                                total_size: t2,
                                                header,
                                            } => {
                                                &&& a2 == address
                                                &&& t2 == total_size
                                                &&& spec_header_matches(header, s, 2)
                                            },
                                            _ => false,
                                        })
                                        &&& final(self).apps == old(self).apps
                                        &&& r->Ok_0 == Some(
                                            Request::ReadRange {
                                                address: (address + be) as u32,
                                                length: (total_size - be) as u16,
                                            },
                                        )
                                    } else {
                                        r is Err && r->Err_0 is MisconfiguredBoard
                                    }
                                }
                            }
                        },
                        _ => r is Err,
                    },
                    SessionPhase::WalkFooters { address, total_size, header } => match reply {
                        Reply::Data(data) => {
                            if spec_parse_footers(data@, 0) is None {
                                r is Err && r->Err_0 == TockloaderError::ParsingError(
                                    TbfError::TruncatedFooter,
                                )
                            } else if address + total_size <= u32::MAX {
                                &&& r is Ok
                                &&& final(self).apps@.len() == old(self).apps@.len() + 1
                                &&& final(self).apps@.last().tbf_header == header
                                &&& final(self).apps@.last().tbf_footers@.len()
                                    == spec_parse_footers(data@, 0)->0.len()
                                &&& (forall|j: int|
                                    0 <= j < final(self).apps@.last().tbf_footers@.len()
                                        ==> footer_matches(
                                        #[trigger] final(self).apps@.last().tbf_footers@[j],
                                        spec_parse_footers(data@, 0)->0[j],
                                    ))
                                &&& final(self).apps@.take(old(self).apps@.len() as int) == old(
                                    self,
                                ).apps@
                                &&& r->Ok_0 == Some(
                                    Request::ReadRange {
                                        address: (address + total_size) as u32,
                                        length: 200u16,
                                    },
                                )
                                &&& final(self).phase == (SessionPhase::WalkWindow {
                                    address: (address + total_size) as u64,
                                })
                            } else {
                                r is Err && r->Err_0 is MisconfiguredBoard
                            }
                        },
                        _ => r is Err,
                    },
                    SessionPhase::Done => r is Ok && r->Ok_0 is None && final(self).phase is Done,
                }
            }),
    {
        let phase = replace_value(&mut self.phase, SessionPhase::Done);
        match (phase, reply) {
            (SessionPhase::Connect { attempts, second_round }, Reply::Code(c)) => {
                if c == PONG_CODE {
                    self.phase = SessionPhase::Table;
                    Ok(Some(Request::ReadRange { address: 0x600, length: 1024 }))
                } else if attempts < PING_BUDGET - 1 {
                    self.phase = SessionPhase::Connect { attempts: attempts + 1, second_round };
                    Ok(Some(Request::Ping { sync: false }))
                } else if !second_round {
                    self.phase = SessionPhase::Connect { attempts: 0, second_round: true };
                    Ok(Some(Request::SleepThenPing))
                } else {
                    Err(TockloaderError::BootloaderError(c))
                }
            },
            (SessionPhase::Table, Reply::Data(data)) => {
                if data.len() != 1024 {
                    return Err(
                        TockloaderError::Protocol(crate::errors::ProtocolError::WrongPayloadLength),
                    );
                }
                match self.attrs.decode_table(&data) {
                    Ok(()) => {
                        self.phase = SessionPhase::BootloaderVersion;
                        Ok(Some(Request::ReadRange { address: 0x40E, length: 8 }))
                    },
                    Err(e) => Err(e),
                }
            },
            (SessionPhase::BootloaderVersion, Reply::Data(data)) => {
                if data.len() != 8 {
                    return Err(
                        TockloaderError::Protocol(crate::errors::ProtocolError::WrongPayloadLength),
                    );
                }
                if let Err(e) = self.attrs.set_bootloader_version(&data) {
                    return Err(e);
                }
                match self.attrs.kernel_info_address() {
                    Some(address) => {
                        self.phase = SessionPhase::KernelBlock;
                        Ok(Some(Request::ReadRange { address, length: 100 }))
                    },
                    None => {
                        proof {
                            reveal_strlit("No start address found.");
                        }
                        Err(
                            TockloaderError::MisconfiguredBoard(
                                String::from_str("No start address found."),
                            ),
                        )
                    },
                }
            },
            (SessionPhase::KernelBlock, Reply::Data(data)) => {
                if data.len() != 100 {
                    return Err(
                        TockloaderError::Protocol(crate::errors::ProtocolError::WrongPayloadLength),
                    );
                }
                self.attrs.set_kernel_attributes(&data);
                let appaddr = match self.attrs.appaddr {
                    Some(a) => a,
                    None => {
                        proof {
                            reveal_strlit("No start address found.");
                        }
                        return Err(
                            TockloaderError::MisconfiguredBoard(
                                String::from_str("No start address found."),
                            ),
                        );
                    },
                };
                if appaddr > 0xFFFF_FFFF {
                    proof {
                        reveal_strlit("Invalid start address.");
                    }
                    return Err(
                        TockloaderError::MisconfiguredBoard(
                            String::from_str("Invalid start address."),
                        ),
                    );
                }
                self.phase = SessionPhase::WalkWindow { address: appaddr };
                Ok(Some(Request::ReadRange { address: appaddr as u32, length: 200 }))
            },
            (SessionPhase::WalkWindow { address }, Reply::Data(data)) => {
                if data.len() < 8 {
                    return Err(
                        TockloaderError::Protocol(crate::errors::ProtocolError::WrongPayloadLength),
                    );
                }
                let window = subvec(&data, 0, 8);
                proof {
                    assert(window@ =~= data@.subrange(0, 8));
                    assert(le16_at(window@, 0) == le16_at(data@, 0));
                    assert(le16_at(window@, 2) == le16_at(data@, 2));
                    assert(le32_at(window@, 4) == le32_at(data@, 4));
                }
                let lengths = match parse_tbf_header_lengths(&window) {
                    Ok((_version, header_size, total_size)) => {
                        if header_size == 0 {
                            None
                        } else {
                            Some((header_size, total_size))
                        }
                    },
                    Err(_) => None,
                };
                match lengths {
                    None => {
                        self.phase = SessionPhase::Done;
                        Ok(None)
                    },
                    Some((header_size, total_size)) => {
                        if total_size == 0 {
                            return Err(TockloaderError::ParsingError(TbfError::ZeroTotalSize));
                        }
                        if header_size < 16 {
                            return Err(TockloaderError::ParsingError(TbfError::TruncatedHeader));
                        }
                        if address > 0xFFFF_FFFFu64 - header_size as u64 {
                            proof {
                                reveal_strlit("Invalid start address.");
                            }
                            return Err(
                                TockloaderError::MisconfiguredBoard(
                                    String::from_str("Invalid start address."),
                                ),
                            );
                        }
                        self.phase = SessionPhase::WalkHeader { address, total_size };
                        Ok(Some(Request::ReadRange { address: address as u32, length: header_size }))
                    },
                }
            },
            (SessionPhase::WalkHeader { address, total_size }, Reply::Data(data)) => {
                let header = match parse_tbf_header(&data, 2) {
                    Ok(h) => h,
                    Err(e) => {
                        return Err(TockloaderError::ParsingError(e));
                    },
                };
                let binary_end = header.get_binary_end();
                proof {
                    assert(header.total_size == le32_at(data@, 4));
                    assert(binary_end == spec_header_binary_end(data@));
                }
                if binary_end < 16 || binary_end > total_size || header.total_size != total_size {
                    return Err(TockloaderError::ParsingError(TbfError::TruncatedFooter));
                }
                if binary_end == total_size {
                    // No footers: the entry is complete.
                    if address > 0xFFFF_FFFFu64 - total_size as u64 {
                        proof {
                            reveal_strlit("Invalid start address.");
                        }
                        return Err(
                            TockloaderError::MisconfiguredBoard(
                                String::from_str("Invalid start address."),
                            ),
                        );
                    }
                    self.apps.push(AppAttributes { tbf_header: header, tbf_footers: Vec::new() });
                    let next_address = address + total_size as u64;
                    self.phase = SessionPhase::WalkWindow { address: next_address };
                    return Ok(
                        Some(Request::ReadRange { address: next_address as u32, length: 200 }),
                    );
                }
                let footer_len = total_size - binary_end;
                if footer_len > 0xFFFF {
                    proof {
                        reveal_strlit("Invalid start address.");
                    }
                    return Err(
                        TockloaderError::MisconfiguredBoard(
                            String::from_str("Invalid start address."),
                        ),
                    );
                }
                if address > 0xFFFF_FFFFu64 - binary_end as u64 {
                    proof {
                        reveal_strlit("Invalid start address.");
                    }
                    return Err(
                        TockloaderError::MisconfiguredBoard(
                            String::from_str("Invalid start address."),
                        ),
                    );
                }
                let region_address = (address + binary_end as u64) as u32;
                self.phase = SessionPhase::WalkFooters { address, total_size, header };
                Ok(Some(Request::ReadRange { address: region_address, length: footer_len as u16 }))
            },
            (SessionPhase::WalkFooters { address, total_size, header }, Reply::Data(data)) => {
                let footers = match parse_tbf_footers(&data) {
                    Ok(f) => f,
                    Err(e) => {
                        return Err(TockloaderError::ParsingError(e));
                    },
                };
                if address > 0xFFFF_FFFFu64 - total_size as u64 {
                    proof {
                        reveal_strlit("Invalid start address.");
                    }
                    return Err(
                        TockloaderError::MisconfiguredBoard(
                            String::from_str("Invalid start address."),
                        ),
                    );
                }
                self.apps.push(AppAttributes { tbf_header: header, tbf_footers: footers });
                let next_address = address + total_size as u64;
                self.phase = SessionPhase::WalkWindow { address: next_address };
                Ok(Some(Request::ReadRange { address: next_address as u32, length: 200 }))
            },
            (SessionPhase::Done, _) => Ok(None),
            (_, _) => Err(
                TockloaderError::Protocol(crate::errors::ProtocolError::WrongPayloadLength),
            ),
        }
    }
}

/// Relies on std's `mem::replace`: puts the new value in place of the
/// current one and hands the current value back.
#[verifier::external_body]
fn replace_value<T>(dest: &mut T, value: T) -> (r: T)
    ensures
        r == *old(dest),
        *final(dest) == value,
{
    core::mem::replace(dest, value)
}

} // verus!
