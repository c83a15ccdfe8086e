//! Decisions and data of a Bluetooth RFCOMM connector and device search,
//! kept apart from the operating-system calls that carry them out.

pub mod text;
pub mod address;
pub mod device;
pub mod connector;
pub mod scan;
