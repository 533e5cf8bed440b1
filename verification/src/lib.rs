//! Capability contracts for byte- and word-addressable storage devices.
//!
//! A concrete driver implements the subset of capability traits its hardware
//! supports (single/bulk read, single/bulk write, page erase, geometry
//! introspection); consumers constrain generically over exactly the
//! capabilities they need. Every fallible operation follows a uniform
//! non-blocking convention: it answers `Ready`, `WouldBlock` (retry later) or
//! `Error`.

pub mod address;
pub mod capability;
pub mod flash;
pub mod nonblock;
