//! Verified core of a second-stage firmware bootloader.
//!
//! The library holds the decision logic of the boot pipeline: locating the
//! kernel file in a directory listing, parsing the kernel's executable image
//! and planning its segment copies, sizing the memory-map snapshot buffer,
//! building the boot handoff table, and tracking the irreversible exit from
//! firmware boot services. The firmware protocol calls themselves (handle
//! enumeration, file reads, allocation, the exit call) are performed by the
//! surrounding program, which feeds this library plain values.

pub mod elf;
pub mod handoff;
pub mod loader;
pub mod locate;
pub mod mmap;
pub mod phase;
