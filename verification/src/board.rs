//! Per-board settings and serial-port path normalisation.

use vstd::prelude::*;

use crate::text::str_eq;

verus! {

/// Settings of the attached board: its name, its chip, and the flash
/// address where applications start.
#[derive(Clone, Debug)]
pub struct BoardSettings {
    pub board: String,
    pub chip: String,
    pub start_address: u64,
}

impl BoardSettings {
    /// The application start address of a known board, or the common
    /// default for one we do not know.
    pub fn new(board: String, chip: String) -> (r: BoardSettings)
        ensures
            r.board == board,
            r.chip == chip,
            r.start_address == (if board@ == "microbit_v2"@ {
                0x0004_0000u64
            } else {
                0x0003_0000u64
            }),
    {
        let start_address: u64 = if str_eq(board.as_str(), "microbit_v2") {
            0x0004_0000
        } else {
            0x0003_0000
        };
        BoardSettings { board, chip, start_address }
    }
}

/// Characters of the port-path prefix that some systems list serial
/// devices under but cannot always open.
pub open spec fn sys_tty_prefix() -> Seq<char> {
    "/sys/class/tty/"@
}

/// A port path with the `/sys/class/tty/` prefix turned into `/dev/`,
/// the scheme that reliably opens; any other path is returned unchanged.
pub open spec fn spec_clean_port_path(s: Seq<char>) -> Seq<char> {
    if s.len() >= 15 && s.subrange(0, 15) == sys_tty_prefix() {
        "/dev/"@ + s.skip(15)
    } else {
        s
    }
}

/// Replace a leading `/sys/class/tty/` with `/dev/` so the port can be
/// opened; Windows COM paths and plain `/dev` paths pass through.
pub fn clean_port_path(port: String) -> (r: String)
    ensures
        r@ == spec_clean_port_path(port@),
{
    let n = port.as_str().unicode_len();
    if n >= 15 {
        let head = port.as_str().substring_char(0, 15);
        if str_eq(head, "/sys/class/tty/") {
            let tail = port.as_str().substring_char(15, n);
            let cleaned = String::from_str("/dev/").concat(tail);
            proof {
                assert(tail@ =~= port@.skip(15));
            }
            return cleaned;
        }
    }
    port
}

} // verus!
