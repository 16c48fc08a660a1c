//! The disk driver's command setup: which bytes go to which task-file ports
//! for a one-sector PIO read or write at a 28-bit block address. The port
//! writes themselves, and the busy-wait on the status register, are I/O and
//! happen outside this crate.

use vstd::prelude::*;

verus! {

/// Status-register bit: the drive is busy.
pub const STATUS_BSY: u8 = 0x80;

/// Status-register bit: the drive is ready.
pub const STATUS_RDY: u8 = 0x40;

/// ATA command byte: read sectors with retry.
pub const CMD_READ: u8 = 0x20;

/// ATA command byte: write sectors with retry.
pub const CMD_WRITE: u8 = 0x30;

/// One byte bound for a task-file port.
#[derive(Debug, Clone, Copy, PartialEq, Eq, Structural)]
pub struct PortWrite {
    pub port: u16,
    pub value: u8,
}

/// Whether the drive still reports busy; polled before any command.
pub fn is_busy(status: u8) -> (r: bool)
    ensures
        r == (status & STATUS_BSY != 0),
{
    status & STATUS_BSY != 0
}

/// Whether the drive reports ready; polled before any command.
pub fn is_drive_ready(status: u8) -> (r: bool)
    ensures
        r == (status & STATUS_RDY != 0),
{
    status & STATUS_RDY != 0
}

/// The task-file setup for one sector at block address `lba`: drive select
/// with the address's top nibble, no features, a count of one, the address's
/// three low bytes, and the command byte.
pub fn sector_commands(lba: u32, command: u8) -> (v: Vec<PortWrite>)
    ensures
        v@.len() == 7,
        v@[0] == (PortWrite { port: 0x1f6, value: (0xe0 | ((lba >> 24) & 0x0f)) as u8 }),
        v@[1] == (PortWrite { port: 0x1f1, value: 0x00 }),
        v@[2] == (PortWrite { port: 0x1f2, value: 0x01 }),
        v@[3] == (PortWrite { port: 0x1f3, value: lba as u8 }),
        v@[4] == (PortWrite { port: 0x1f4, value: (lba >> 8) as u8 }),
        v@[5] == (PortWrite { port: 0x1f5, value: (lba >> 16) as u8 }),
        v@[6] == (PortWrite { port: 0x1f7, value: command }),
{
    let mut v: Vec<PortWrite> = Vec::new();
    v.push(PortWrite { port: 0x1f6, value: (0xe0 | ((lba >> 24) & 0x0f)) as u8 });
    v.push(PortWrite { port: 0x1f1, value: 0x00 });
    v.push(PortWrite { port: 0x1f2, value: 0x01 });
    v.push(PortWrite { port: 0x1f3, value: lba as u8 });
    v.push(PortWrite { port: 0x1f4, value: (lba >> 8) as u8 });
    v.push(PortWrite { port: 0x1f5, value: (lba >> 16) as u8 });
    v.push(PortWrite { port: 0x1f7, value: command });
    v
}

/// The writes that start a one-sector PIO write at `lba`; the caller then
/// streams the sector's data words to the data port.
pub fn write_sector_commands(lba: u32) -> (v: Vec<PortWrite>)
    ensures
        v@.len() == 7,
        v@[6] == (PortWrite { port: 0x1f7, value: CMD_WRITE }),
        v@[0] == (PortWrite { port: 0x1f6, value: (0xe0 | ((lba >> 24) & 0x0f)) as u8 }),
        v@[1] == (PortWrite { port: 0x1f1, value: 0x00 }),
        v@[2] == (PortWrite { port: 0x1f2, value: 0x01 }),
        v@[3] == (PortWrite { port: 0x1f3, value: lba as u8 }),
        v@[4] == (PortWrite { port: 0x1f4, value: (lba >> 8) as u8 }),
        v@[5] == (PortWrite { port: 0x1f5, value: (lba >> 16) as u8 }),
{
    sector_commands(lba, CMD_WRITE)
}

/// The writes that start a one-sector PIO read at `lba`; the caller then
/// pulls the sector's data words from the data port.
pub fn read_sector_commands(lba: u32) -> (v: Vec<PortWrite>)
    ensures
        v@.len() == 7,
        v@[6] == (PortWrite { port: 0x1f7, value: CMD_READ }),
        v@[0] == (PortWrite { port: 0x1f6, value: (0xe0 | ((lba >> 24) & 0x0f)) as u8 }),
        v@[1] == (PortWrite { port: 0x1f1, value: 0x00 }),
        v@[2] == (PortWrite { port: 0x1f2, value: 0x01 }),
        v@[3] == (PortWrite { port: 0x1f3, value: lba as u8 }),
        v@[4] == (PortWrite { port: 0x1f4, value: (lba >> 8) as u8 }),
        v@[5] == (PortWrite { port: 0x1f5, value: (lba >> 16) as u8 }),
{
    sector_commands(lba, CMD_READ)
}

} // verus!
