//! Editing the read-only attribute of GUID partition table entries on a
//! device that only transfers whole sectors.
//!
//! The crate holds the decisions of such an editor, each with a proved
//! contract, and leaves the device and the terminal to its caller:
//!
//! * [`sector_io`] turns a transfer of any length at any offset into the
//!   sector-aligned window that the device has to read or write;
//! * [`attributes`] reads and writes the read-only flag of an attribute field;
//! * [`answer`] resolves a line typed at the prompt to a state of the flag;
//! * [`editor`] walks a partition table entry by entry and says what to do
//!   next: ask, ask again, write the table back, or stop;
//! * [`table`] is the boundary to the partition table of the `gptman` crate.

pub mod answer;
pub mod attributes;
pub mod editor;
pub mod error;
pub mod sector_io;
pub mod table;
