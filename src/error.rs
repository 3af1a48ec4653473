//! Error types of the decoders, the channel map and the event builder.
use vstd::prelude::*;

verus! {

/// A GET datum whose fields fall outside the electronics' ranges.
#[derive(Debug, Clone, Copy, PartialEq, Eq)]
pub enum GrawDataError {
    BadAgetID(u8),
    BadChannel(u8),
    BadTimeBucket(u16),
}

/// Reasons a GET frame is rejected.
#[derive(Debug, Clone, Copy, PartialEq, Eq)]
pub enum GrawFrameError {
    /// The buffer ended before the frame did.
    IOError,
    IncorrectMetaType(u8),
    /// Size found in the header, size computed from the item count.
    IncorrectFrameSize(u32, u32),
    IncorrectFrameType(u16),
    IncorrectHeaderSize(u16),
    IncorrectItemSize(u16),
    BadDatum(GrawDataError),
}

/// Reasons a FRIBDAQ ring item cannot be decoded.
#[derive(Debug, Clone, Copy, PartialEq, Eq)]
pub enum EvtItemError {
    /// The payload ended before a field that had to be read.
    IOError,
    StackOrderError,
    /// The raw buffer is too short to hold a ring item header.
    ItemSizeError,
}

#[derive(Debug, Clone, PartialEq, Eq)]
pub enum DetectorError {
    InvalidKeyword(String),
}

/// Reasons a channel map text is rejected.
#[derive(Debug, Clone, PartialEq, Eq)]
pub enum GetChannelMapError {
    /// A field that should hold an integer does not; the field is kept.
    ParsingError(String),
    BadDetKeyword(DetectorError),
    /// A row with a number of columns that no layout has.
    BadFileFormat,
}

#[derive(Debug, Clone, Copy, PartialEq, Eq)]
pub enum EventError {
    InvalidHardware(u8, u8, u8, u8),
    /// Event id of the frame given, event id of the event.
    MismatchedEventID(u32, u32),
}

#[derive(Debug, Clone, Copy, PartialEq, Eq)]
pub enum EventBuilderError {
    /// Event id of the frame given, event id being built.
    EventOutOfOrder(u32, u32),
    EventError(EventError),
}

} // verus!
