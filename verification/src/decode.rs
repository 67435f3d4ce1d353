//! Deriving a chain point from raw header or block-body bytes.
//!
//! The chain has several historical binary encodings (eras).  Each era's
//! decoder is tried in order and the first that parses wins; when none
//! parses, the bytes are unrecognizable and the session must fail.  The
//! decoders themselves live in an outside codec crate and are trusted;
//! what each returns is given a name, and the cascade and its slot
//! arithmetic are verified against those names.

use vstd::prelude::*;
use crate::point::{Point, PointView};
use pallas::codec::minicbor;
use pallas::ledger::primitives::{alonzo, babbage, byron};
use pallas::ledger::traverse::ComputeHash;

verus! {

/// Slots per epoch in the earliest era.  Epoch-boundary and Byron blocks
/// state an epoch number; their slot is derived from it.
pub const BYRON_EPOCH_LENGTH: u64 = 21600;

/// What decoding header bytes as an epoch-boundary block yields, when it
/// parses: the epoch number and the 32-byte header hash.
pub uninterp spec fn ebb_header_info(bytes: Seq<u8>) -> Option<(u64, Seq<u8>)>;

/// What decoding header bytes as a Byron main block yields, when it
/// parses: the epoch number, the in-epoch slot, and the header hash.
pub uninterp spec fn byron_header_info(bytes: Seq<u8>) -> Option<(u64, u64, Seq<u8>)>;

/// What decoding header bytes as a Shelley-to-Alonzo header yields, when
/// it parses: the absolute slot and the header hash.
pub uninterp spec fn shelley_header_info(bytes: Seq<u8>) -> Option<(u64, Seq<u8>)>;

/// What decoding header bytes as a Babbage header yields, when it parses:
/// the absolute slot and the header hash.
pub uninterp spec fn babbage_header_info(bytes: Seq<u8>) -> Option<(u64, Seq<u8>)>;

/// What decoding block-body bytes as an epoch-boundary block yields.
pub uninterp spec fn ebb_body_info(bytes: Seq<u8>) -> Option<(u64, Seq<u8>)>;

/// What decoding block-body bytes as a Byron main block yields.
pub uninterp spec fn byron_body_info(bytes: Seq<u8>) -> Option<(u64, u64, Seq<u8>)>;

/// What decoding block-body bytes as a Shelley-to-Alonzo block yields.
pub uninterp spec fn shelley_body_info(bytes: Seq<u8>) -> Option<(u64, Seq<u8>)>;

/// What decoding block-body bytes as a Babbage block yields.
pub uninterp spec fn babbage_body_info(bytes: Seq<u8>) -> Option<(u64, Seq<u8>)>;

/// An executable decode result agrees with a named `(number, hash)`
/// result, the hash being 32 bytes.
pub open spec fn info2_matches(r: Option<(u64, Vec<u8>)>, m: Option<(u64, Seq<u8>)>) -> bool {
    match (r, m) {
        (Some(a), Some(b)) => a.0 == b.0 && a.1@ == b.1 && b.1.len() == 32,
        (None, None) => true,
        _ => false,
    }
}

/// An executable decode result agrees with a named `(number, number,
/// hash)` result, the hash being 32 bytes.
pub open spec fn info3_matches(r: Option<(u64, u64, Vec<u8>)>, m: Option<(u64, u64, Seq<u8>)>) -> bool {
    match (r, m) {
        (Some(a), Some(b)) => a.0 == b.0 && a.1 == b.1 && a.2@ == b.2 && b.2.len() == 32,
        (None, None) => true,
        _ => false,
    }
}

/// Relies on pallas: minicbor decode of `byron::EbbHead` and
/// `ComputeHash::compute_hash` for it (a 32-byte Blake2b hash); both
/// depend on the bytes alone.
#[verifier::external_body]
fn decode_ebb_header(bytes: &Vec<u8>) -> (r: Option<(u64, Vec<u8>)>)
    ensures
        info2_matches(r, ebb_header_info(bytes@)),
{
    let head: byron::EbbHead = minicbor::decode(bytes.as_slice()).ok()?;
    Some((head.consensus_data.epoch_id, head.compute_hash().to_vec()))
}

/// Relies on pallas: minicbor decode of `byron::BlockHead` and
/// `ComputeHash::compute_hash` for it; both depend on the bytes alone.
#[verifier::external_body]
fn decode_byron_header(bytes: &Vec<u8>) -> (r: Option<(u64, u64, Vec<u8>)>)
    ensures
        info3_matches(r, byron_header_info(bytes@)),
{
    let head: byron::BlockHead = minicbor::decode(bytes.as_slice()).ok()?;
    let slot = &head.consensus_data.0;
    Some((slot.epoch, slot.slot, head.compute_hash().to_vec()))
}

/// Relies on pallas: minicbor decode of `alonzo::Header` and
/// `ComputeHash::compute_hash` for it; both depend on the bytes alone.
#[verifier::external_body]
fn decode_shelley_header(bytes: &Vec<u8>) -> (r: Option<(u64, Vec<u8>)>)
    ensures
        info2_matches(r, shelley_header_info(bytes@)),
{
    let head: alonzo::Header = minicbor::decode(bytes.as_slice()).ok()?;
    Some((head.header_body.slot, head.compute_hash().to_vec()))
}

/// Relies on pallas: minicbor decode of `babbage::Header` and
/// `ComputeHash::compute_hash` for it; both depend on the bytes alone.
#[verifier::external_body]
fn decode_babbage_header(bytes: &Vec<u8>) -> (r: Option<(u64, Vec<u8>)>)
    ensures
        info2_matches(r, babbage_header_info(bytes@)),
{
    let head: babbage::Header = minicbor::decode(bytes.as_slice()).ok()?;
    Some((head.header_body.slot, head.compute_hash().to_vec()))
}

/// Relies on pallas: minicbor decode of a tagged `byron::EbBlock` and
/// `ComputeHash::compute_hash` of its header; both depend on the bytes
/// alone.
#[verifier::external_body]
fn decode_ebb_body(bytes: &Vec<u8>) -> (r: Option<(u64, Vec<u8>)>)
    ensures
        info2_matches(r, ebb_body_info(bytes@)),
{
    let (_, block): (u16, byron::EbBlock) = minicbor::decode(bytes.as_slice()).ok()?;
    Some((block.header.consensus_data.epoch_id, block.header.compute_hash().to_vec()))
}

/// Relies on pallas: minicbor decode of a tagged `byron::Block` and
/// `ComputeHash::compute_hash` of its header; both depend on the bytes
/// alone.
#[verifier::external_body]
fn decode_byron_body(bytes: &Vec<u8>) -> (r: Option<(u64, u64, Vec<u8>)>)
    ensures
        info3_matches(r, byron_body_info(bytes@)),
{
    let (_, block): (u16, byron::Block) = minicbor::decode(bytes.as_slice()).ok()?;
    let slot = &block.header.consensus_data.0;
    Some((slot.epoch, slot.slot, block.header.compute_hash().to_vec()))
}

/// Relies on pallas: minicbor decode of a tagged `alonzo::Block` and
/// `ComputeHash::compute_hash` of its header; both depend on the bytes
/// alone.
#[verifier::external_body]
fn decode_shelley_body(bytes: &Vec<u8>) -> (r: Option<(u64, Vec<u8>)>)
    ensures
        info2_matches(r, shelley_body_info(bytes@)),
{
    let (_, block): (u16, alonzo::Block) = minicbor::decode(bytes.as_slice()).ok()?;
    Some((block.header.header_body.slot, block.header.compute_hash().to_vec()))
}

/// Relies on pallas: minicbor decode of a tagged `babbage::Block` and
/// `ComputeHash::compute_hash` of its header; both depend on the bytes
/// alone.
#[verifier::external_body]
fn decode_babbage_body(bytes: &Vec<u8>) -> (r: Option<(u64, Vec<u8>)>)
    ensures
        info2_matches(r, babbage_body_info(bytes@)),
{
    let (_, block): (u16, babbage::Block) = minicbor::decode(bytes.as_slice()).ok()?;
    Some((block.header.header_body.slot, block.header.compute_hash().to_vec()))
}

/// The point for a derived slot, when the slot arithmetic stays within
/// 64 bits; a block whose derived slot would not fit is rejected as
/// unrecognizable.
pub open spec fn spec_point_from(slot: int, hash: Seq<u8>) -> Option<PointView> {
    if slot <= u64::MAX {
        Some(PointView::Specific(slot as u64, hash))
    } else {
        None
    }
}

/// The point the era cascade derives from header bytes: the first era
/// that parses wins.  Epoch-boundary blocks sit at `epoch * 21600`;
/// Byron blocks at `epoch * 21600 + slot`; later eras carry the slot.
pub open spec fn header_point_of(bytes: Seq<u8>) -> Option<PointView> {
    match ebb_header_info(bytes) {
        Some(info) => spec_point_from(info.0 * BYRON_EPOCH_LENGTH, info.1),
        None => match byron_header_info(bytes) {
            Some(info) => spec_point_from(info.0 * BYRON_EPOCH_LENGTH + info.1, info.2),
            None => match shelley_header_info(bytes) {
                Some(info) => Some(PointView::Specific(info.0, info.1)),
                None => match babbage_header_info(bytes) {
                    Some(info) => Some(PointView::Specific(info.0, info.1)),
                    None => None,
                },
            },
        },
    }
}

/// The point the era cascade derives from block-body bytes; the same
/// cascade as for headers, over the body decoders.
pub open spec fn body_point_of(bytes: Seq<u8>) -> Option<PointView> {
    match ebb_body_info(bytes) {
        Some(info) => spec_point_from(info.0 * BYRON_EPOCH_LENGTH, info.1),
        None => match byron_body_info(bytes) {
            Some(info) => spec_point_from(info.0 * BYRON_EPOCH_LENGTH + info.1, info.2),
            None => match shelley_body_info(bytes) {
                Some(info) => Some(PointView::Specific(info.0, info.1)),
                None => match babbage_body_info(bytes) {
                    Some(info) => Some(PointView::Specific(info.0, info.1)),
                    None => None,
                },
            },
        },
    }
}

/// An executable point agrees with a point value, and is well formed.
pub open spec fn point_opt_matches(r: Option<Point>, m: Option<PointView>) -> bool {
    match (r, m) {
        (Some(p), Some(v)) => p@ == v && p.wf(),
        (None, None) => true,
        _ => false,
    }
}

/// Derive the chain point from raw header bytes, trying each era in
/// order.  `None` means no era recognized the bytes (or the derived slot
/// overflows), which is fatal for the session.
pub fn header_point(bytes: &Vec<u8>) -> (r: Option<Point>)
    ensures
        point_opt_matches(r, header_point_of(bytes@)),
{
    match decode_ebb_header(bytes) {
        Some((epoch, hash)) => {
            return match epoch.checked_mul(BYRON_EPOCH_LENGTH) {
                Some(slot) => Some(Point::Specific(slot, hash)),
                None => None,
            };
        },
        None => {},
    }
    match decode_byron_header(bytes) {
        Some((epoch, slot_in_epoch, hash)) => {
            return match epoch.checked_mul(BYRON_EPOCH_LENGTH) {
                Some(base) => match base.checked_add(slot_in_epoch) {
                    Some(slot) => Some(Point::Specific(slot, hash)),
                    None => None,
                },
                None => None,
            };
        },
        None => {},
    }
    match decode_shelley_header(bytes) {
        Some((slot, hash)) => {
            return Some(Point::Specific(slot, hash));
        },
        None => {},
    }
    match decode_babbage_header(bytes) {
        Some((slot, hash)) => Some(Point::Specific(slot, hash)),
        None => None,
    }
}

/// Derive the chain point from raw block-body bytes, trying each era in
/// order; the body's self-describing form nests the header, so the same
/// point comes out as from the header alone.
pub fn body_point(bytes: &Vec<u8>) -> (r: Option<Point>)
    ensures
        point_opt_matches(r, body_point_of(bytes@)),
{
    match decode_ebb_body(bytes) {
        Some((epoch, hash)) => {
            return match epoch.checked_mul(BYRON_EPOCH_LENGTH) {
                Some(slot) => Some(Point::Specific(slot, hash)),
                None => None,
            };
        },
        None => {},
    }
    match decode_byron_body(bytes) {
        Some((epoch, slot_in_epoch, hash)) => {
            return match epoch.checked_mul(BYRON_EPOCH_LENGTH) {
                Some(base) => match base.checked_add(slot_in_epoch) {
                    Some(slot) => Some(Point::Specific(slot, hash)),
                    None => None,
                },
                None => None,
            };
        },
        None => {},
    }
    match decode_shelley_body(bytes) {
        Some((slot, hash)) => {
            return Some(Point::Specific(slot, hash));
        },
        None => {},
    }
    match decode_babbage_body(bytes) {
        Some((slot, hash)) => Some(Point::Specific(slot, hash)),
        None => None,
    }
}

} // verus!
