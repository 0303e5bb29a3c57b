//! A two-slot rotating store for oracle price reports.
//!
//! `codec` gives big-endian byte strings their numeric meaning; `report`
//! fixes the 61-byte wire format of a report and proves its round trip;
//! `store` holds the two report slots and the update rule that decides
//! which slot an incoming report overwrites and which slot is active
//! afterwards.

pub mod codec;
pub mod report;
pub mod store;
