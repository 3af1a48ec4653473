//! Constants of the GET format and of the AT-TPC electronics.
use vstd::prelude::*;

verus! {

/// Meta type byte of every GET frame.
pub const EXPECTED_META_TYPE: u8 = 6;
/// Frame type whose items carry the full address of each sample (4 bytes).
pub const EXPECTED_FRAME_TYPE_FULL: u16 = 1;
/// Frame type whose items carry only the AGET and the sample (2 bytes).
pub const EXPECTED_FRAME_TYPE_PARTIAL: u16 = 2;
/// Header size of a frame, in `SIZE_UNIT`s.
pub const EXPECTED_HEADER_SIZE: u16 = 8;
pub const EXPECTED_ITEM_SIZE_FULL: u16 = 4;
pub const EXPECTED_ITEM_SIZE_PARTIAL: u16 = 2;
/// Bytes in the unit of `frame_size` and `header_size` (256 bits).
pub const SIZE_UNIT: u32 = 32;
/// Bytes of the header fields that are decoded.
pub const HEADER_FIELDS_LEN: usize = 31;

pub const NUMBER_OF_TIME_BUCKETS: u16 = 512;
pub const NUMBER_OF_AGETS: u8 = 4;
pub const NUMBER_OF_CHANNELS: u8 = 68;
pub const NUMBER_OF_COBOS: u8 = 11;
pub const NUMBER_OF_ASADS: u8 = 4;
/// CoBos from this one on read the silicon detectors.
pub const COBO_OF_SILICON: u8 = 10;
/// The CoBo whose timestamp is in sync with the FRIB DAQ.
pub const COBO_WITH_TIMESTAMP: u8 = 10;
/// Columns of a row of an event data matrix: the address, the detector
/// channel, then one column per time bucket.
pub const NUMBER_OF_MATRIX_COLUMNS: usize = 517;

/// The fixed-pattern-noise channels of every AGET.
pub open spec fn is_fpn_channel(channel: u8) -> bool {
    channel == 11 || channel == 22 || channel == 45 || channel == 56
}

pub fn fpn_channel(channel: u8) -> (r: bool)
    ensures
        r == is_fpn_channel(channel),
{
    channel == 11 || channel == 22 || channel == 45 || channel == 56
}

} // verus!
