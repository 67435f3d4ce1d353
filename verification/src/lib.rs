//! Verified core of a multi-peer Cardano chain archiver.
//!
//! The library holds the logic of the sync engine: chain points, the
//! per-peer persistent cursor and its on-disk codec, the rollback-aware
//! batcher that turns header announcements into body-fetch ranges, the
//! slot-bucketed artifact paths, and the era cascade that derives a point
//! from raw header or block bytes.  The surrounding I/O (TCP, threads,
//! file writes) lives outside the library and hands it plain values.

pub mod batcher;
pub mod codec;
pub mod cursor;
pub mod decode;
pub mod error;
pub mod parse;
pub mod point;
pub mod session;
pub mod topology;
pub mod utils;
