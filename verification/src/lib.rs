//! Turns a fixed-layout firmware image into an over-the-air update
//! transaction for a constrained embedded device: layout validation,
//! a chunked and checksummed command stream, two renderings of that
//! stream (raw wire bytes and a replayable host-side script), and the
//! decision logic of the delivery procedure.

pub mod bleak;
pub mod crc;
pub mod elf2ble;
pub mod image;
pub mod laws;
pub mod uploader;

use vstd::prelude::*;

verus! {

/// Little-endian interpretation of four bytes.
pub open spec fn le32(b0: u8, b1: u8, b2: u8, b3: u8) -> int {
    b0 + b1 * 0x100 + b2 * 0x10000 + b3 * 0x1000000
}

pub fn read_le32(b0: u8, b1: u8, b2: u8, b3: u8) -> (r: u32)
    ensures
        r == le32(b0, b1, b2, b3),
{
    b0 as u32 + b1 as u32 * 0x100 + b2 as u32 * 0x10000 + b3 as u32 * 0x1000000
}

} // verus!
