//! Artifact paths.  Saved headers and bodies live under a two-level
//! slot-bucketed layout that keeps directory fan-out bounded:
//! `{base}/{slot - slot % 200_000_000}/{slot - slot % 200_000}/{slot}-{hex hash}`.
//! Paths are produced as byte strings (they are ASCII after the base).

use vstd::prelude::*;
use crate::point::{Point, PointView};

verus! {

/// Slots per upper bucket: one directory per ~230 days of chain.
pub const LARGE_BUCKET_SIZE: u64 = 200_000_000;

/// Slots per lower bucket: one directory per ~2 days of chain.
pub const SMALL_BUCKET_SIZE: u64 = 200_000;

/// ASCII digit for one decimal place.
pub open spec fn dec_digit(d: int) -> u8 {
    (48 + d) as u8
}

/// Decimal ASCII representation of a number, most significant digit first,
/// no leading zeroes (a single `0` for zero).
pub open spec fn spec_dec(n: nat) -> Seq<u8>
    decreases n,
{
    if n < 10 {
        seq![dec_digit(n as int)]
    } else {
        spec_dec(n / 10) + seq![dec_digit((n % 10) as int)]
    }
}

/// ASCII digit for one hexadecimal place, lower case.
pub open spec fn hex_digit(d: int) -> u8 {
    if d < 10 {
        (48 + d) as u8
    } else {
        (87 + d) as u8
    }
}

/// Lower-case hexadecimal ASCII representation of a byte string: two
/// digits per byte.
pub open spec fn spec_hex(bytes: Seq<u8>) -> Seq<u8>
    decreases bytes.len(),
{
    if bytes.len() == 0 {
        Seq::empty()
    } else {
        spec_hex(bytes.drop_last()) + seq![
            hex_digit(bytes.last() as int / 16),
            hex_digit(bytes.last() as int % 16),
        ]
    }
}

/// Write `n` in decimal ASCII.
pub fn u64_to_dec(n: u64) -> (r: Vec<u8>)
    ensures
        r@ == spec_dec(n as nat),
    decreases n,
{
    if n < 10 {
        let r: Vec<u8> = vec![48 + n as u8];
        proof {
            assert(r@ =~= spec_dec(n as nat));
        }
        r
    } else {
        let mut r = u64_to_dec(n / 10);
        r.push(48 + (n % 10) as u8);
        proof {
            assert(r@ =~= spec_dec(n as nat));
        }
        r
    }
}

/// Write a byte string in lower-case hexadecimal ASCII.
pub fn hex_encode(bytes: &Vec<u8>) -> (r: Vec<u8>)
    ensures
        r@ == spec_hex(bytes@),
{
    let mut r: Vec<u8> = Vec::new();
    let n = bytes.len();
    for k in 0..n
        invariant
            n == bytes@.len(),
            r@ == spec_hex(bytes@.take(k as int)),
    {
        let b = bytes[k];
        r.push(if b / 16 < 10 { 48 + b / 16 } else { 87 + b / 16 });
        r.push(if b % 16 < 10 { 48 + b % 16 } else { 87 + b % 16 });
        proof {
            assert(bytes@.take(k + 1).drop_last() =~= bytes@.take(k as int));
            assert(bytes@.take(k + 1).last() == b);
            assert(r@ =~= spec_hex(bytes@.take(k + 1)));
        }
    }
    proof {
        assert(bytes@.take(n as int) =~= bytes@);
    }
    r
}

/// Start of the upper bucket that holds `slot`.
pub open spec fn spec_upper_bucket(slot: u64) -> u64 {
    (slot - (slot as int % LARGE_BUCKET_SIZE as int)) as u64
}

/// Start of the lower bucket that holds `slot`.
pub open spec fn spec_lower_bucket(slot: u64) -> u64 {
    (slot - (slot as int % SMALL_BUCKET_SIZE as int)) as u64
}

/// File name of an artifact for a specific point: `{slot}-{hex hash}`.
pub open spec fn spec_artifact_file_name(slot: u64, hash: Seq<u8>) -> Seq<u8> {
    spec_dec(slot as nat) + seq![45u8] + spec_hex(hash)
}

/// Full artifact path under `base`:
/// `{base}/{upper bucket}/{lower bucket}/{slot}-{hex hash}`.
pub open spec fn spec_artifact_path(base: Seq<u8>, p: PointView) -> Seq<u8>
    recommends
        p is Specific,
{
    match p {
        PointView::Specific(slot, hash) => base + seq![47u8] + spec_dec(
            spec_upper_bucket(slot) as nat,
        ) + seq![47u8] + spec_dec(spec_lower_bucket(slot) as nat) + seq![47u8]
            + spec_artifact_file_name(slot, hash),
        PointView::Origin => base,
    }
}

/// Append all of `src` to `dst`.
pub fn push_bytes(dst: &mut Vec<u8>, src: &Vec<u8>)
    ensures
        final(dst)@ == old(dst)@ + src@,
{
    let n = src.len();
    for k in 0..n
        invariant
            n == src@.len(),
            dst@ == old(dst)@ + src@.take(k as int),
    {
        dst.push(src[k]);
        proof {
            assert(old(dst)@ + src@.take(k + 1) =~= (old(dst)@ + src@.take(k as int)).push(
                src@[k as int],
            ));
        }
    }
    proof {
        assert(old(dst)@ + src@.take(n as int) =~= old(dst)@ + src@);
    }
}

/// Path of the artifact file for `point` under the directory `base_directory`:
/// bucketed by slot so that no directory grows past a few thousand entries.
///
/// The upper bucket is `slot - slot % 200_000_000`, the lower bucket is
/// `slot - slot % 200_000`, and the file name is `{slot}-{hex hash}`.
pub fn artifact_path(base_directory: &Vec<u8>, point: &Point) -> (r: Vec<u8>)
    requires
        point@ is Specific,
    ensures
        r@ == spec_artifact_path(base_directory@, point@),
{
    match point {
        Point::Specific(slot, hash) => {
            let slot = *slot;
            let upper: u64 = slot - (slot % LARGE_BUCKET_SIZE);
            let lower: u64 = slot - (slot % SMALL_BUCKET_SIZE);
            let mut r: Vec<u8> = Vec::new();
            push_bytes(&mut r, base_directory);
            r.push(47);
            push_bytes(&mut r, &u64_to_dec(upper));
            r.push(47);
            push_bytes(&mut r, &u64_to_dec(lower));
            r.push(47);
            push_bytes(&mut r, &u64_to_dec(slot));
            r.push(45);
            push_bytes(&mut r, &hex_encode(hash));
            proof {
                assert(r@ =~= spec_artifact_path(base_directory@, point@));
            }
            r
        },
        Point::Origin => {
            proof {
                assert(false);
            }
            Vec::new()
        },
    }
}

} // verus!
