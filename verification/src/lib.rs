//! A verified library for inspecting and reprogramming applications on a
//! board running under an embedded OS, over its serial bootloader link:
//! the byte framing of that link, the decoders for the board's attribute
//! table and the TLV-based application header format, the walker over the
//! on-flash application chain, the flash write planner, and the state
//! machine that sequences a whole install.  The transports themselves
//! (serial port, debug probe) live with the callers; everything here is
//! decisions and bytes.

pub mod attributes;
pub mod board;
pub mod console;
pub mod errors;
pub mod framing;
pub mod install;
pub mod mock_probe;
pub mod planner;
pub mod protocol;
pub mod tab;
pub mod tbf;
pub mod text;
pub mod walker;
