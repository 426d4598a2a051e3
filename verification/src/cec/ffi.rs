//! Constants of the libcec interface.

use vstd::prelude::*;

verus! {

/// The most parameter bytes one command can carry.
pub const CEC_MAX_DATA_PACKET_SIZE: usize = 64;

/// The vendor ID that stands for "not known".
pub const CEC_VENDOR_UNKNOWN: u32 = 0;

/// The CEC version that stands for "not known".
pub const CEC_VERSION_UNKNOWN: i32 = 0;

/// libcec's wire sentinel for "power status unknown".
pub const CEC_POWER_STATUS_UNKNOWN: i32 = 0x99;

/// The logical address that stands for "none".
pub const CECDEVICE_UNKNOWN: i32 = -1;

/// How long a transmit may take, in milliseconds.
pub const CEC_DEFAULT_TRANSMIT_TIMEOUT_MS: i32 = 1000;

/// How long an adapter open may take, in milliseconds.
pub const ADAPTER_OPEN_TIMEOUT_MS: u32 = 5000;

/// The most adapters that one search lists.
pub const MAX_ADAPTERS: usize = 10;

/// The bytes of one path slot in an adapter search.
pub const CEC_ADAPTER_STR_SIZE: usize = 1024;

/// The physical address that stands for "none".
pub const CEC_INVALID_PHYSICAL_ADDRESS: u16 = 0xFFFF;

} // verus!
