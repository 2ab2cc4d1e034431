//! Picks the board-specific device-tree blob that matches the running
//! machine, decodes the firmware's SMBIOS identification tables, and drives
//! the two-phase device-tree fixup protocol.

pub mod bytes;
pub mod catalog;
pub mod dmi;
pub mod fixup;
pub mod matching;
pub mod smbios;
