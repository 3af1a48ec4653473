//! Offline event builder for the AT-TPC: decoders for GET frames and
//! FRIBDAQ ring items, the k-way frame merger, the event builder and the
//! bookkeeping around them.
//!
//! File and network I/O is left to the caller: the functions here take
//! bytes, text and decoded values, and hand back values and decisions.
pub mod bytes;
pub mod channel_map;
pub mod config;
pub mod constants;
pub mod error;
pub mod event;
pub mod event_builder;
pub mod file_copier;
pub mod frib_builder;
pub mod graw_frame;
pub mod hardware_id;
pub mod merger;
pub mod process;
pub mod progress;
pub mod ring_item;
pub mod text;
pub mod worker_status;
pub mod writer;
