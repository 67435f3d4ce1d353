//! On-disk form of the cursor: a self-describing binary record, an array
//! holding one length-prefixed array of `(slot, hash)` pairs.  Each slot is
//! a tagged big-endian 64-bit integer, each hash a tagged 32-byte string.
//! Decoding accepts exactly what encoding produces; anything else is
//! reported as a corrupt cursor.

use vstd::prelude::*;
use vstd::arithmetic::div_mod::{lemma_div_denominator, lemma_fundamental_div_mod};
use crate::cursor::Cursor;
use crate::error::SlurpError;

verus! {

/// Big-endian bytes of a 64-bit integer.
pub open spec fn spec_be64(slot: u64) -> Seq<u8> {
    seq![
        (slot as int / 0x100000000000000) as u8,
        ((slot as int / 0x1000000000000) % 256) as u8,
        ((slot as int / 0x10000000000) % 256) as u8,
        ((slot as int / 0x100000000) % 256) as u8,
        ((slot as int / 0x1000000) % 256) as u8,
        ((slot as int / 0x10000) % 256) as u8,
        ((slot as int / 0x100) % 256) as u8,
        (slot as int % 256) as u8,
    ]
}

/// The integer read back from 8 big-endian bytes.
pub open spec fn spec_be64_val(b: Seq<u8>) -> int
    recommends
        b.len() == 8,
{
    b[0] * 0x100000000000000 + b[1] * 0x1000000000000 + b[2] * 0x10000000000 + b[3] * 0x100000000
        + b[4] * 0x1000000 + b[5] * 0x10000 + b[6] * 0x100 + b[7]
}

/// Reading back the big-endian bytes of a slot yields the slot.
pub proof fn lemma_be64_round_trip(slot: u64)
    ensures
        spec_be64_val(spec_be64(slot)) == slot,
{
    let x = slot as int;
    lemma_fundamental_div_mod(x, 0x100);
    lemma_div_denominator(x, 0x100, 0x100);
    lemma_fundamental_div_mod(x / 0x100, 0x100);
    lemma_div_denominator(x, 0x10000, 0x100);
    lemma_fundamental_div_mod(x / 0x10000, 0x100);
    lemma_div_denominator(x, 0x1000000, 0x100);
    lemma_fundamental_div_mod(x / 0x1000000, 0x100);
    lemma_div_denominator(x, 0x100000000, 0x100);
    lemma_fundamental_div_mod(x / 0x100000000, 0x100);
    lemma_div_denominator(x, 0x10000000000, 0x100);
    lemma_fundamental_div_mod(x / 0x10000000000, 0x100);
    lemma_div_denominator(x, 0x1000000000000, 0x100);
    lemma_fundamental_div_mod(x / 0x1000000000000, 0x100);
}

/// Encoded form of one stored point: a two-element array of the tagged
/// slot and the tagged 32-byte hash.
pub open spec fn spec_encode_point(p: (u64, Seq<u8>)) -> Seq<u8> {
    seq![0x82u8, 0x1bu8] + spec_be64(p.0) + seq![0x58u8, 0x20u8] + p.1
}

/// Encoded forms of all stored points, front first.
pub open spec fn spec_encode_points(ps: Seq<(u64, Seq<u8>)>) -> Seq<u8>
    decreases ps.len(),
{
    if ps.len() == 0 {
        Seq::empty()
    } else {
        spec_encode_points(ps.drop_last()) + spec_encode_point(ps.last())
    }
}

/// Encoded form of the whole cursor: a one-field record holding the
/// length-prefixed array of points.
pub open spec fn spec_encode(ps: Seq<(u64, Seq<u8>)>) -> Seq<u8>
    recommends
        ps.len() <= 20,
{
    seq![0x81u8, (0x80 + ps.len()) as u8] + spec_encode_points(ps)
}

/// Shape of one encoded point at offset `o`.
pub open spec fn spec_chunk_ok(bytes: Seq<u8>, o: int) -> bool {
    &&& bytes[o] == 0x82
    &&& bytes[o + 1] == 0x1b
    &&& bytes[o + 10] == 0x58
    &&& bytes[o + 11] == 0x20
}

/// The point stored at offset `o`.
pub open spec fn spec_chunk_point(bytes: Seq<u8>, o: int) -> (u64, Seq<u8>) {
    (spec_be64_val(bytes.subrange(o + 2, o + 10)) as u64, bytes.subrange(o + 12, o + 44))
}

/// Number of points a well-shaped encoding claims to hold.
pub open spec fn spec_decode_len(bytes: Seq<u8>) -> int {
    bytes[1] - 0x80
}

/// Shape of the `i`-th encoded point.
pub open spec fn spec_chunk_ok_at(bytes: Seq<u8>, i: int) -> bool {
    spec_chunk_ok(bytes, 2 + 44 * i)
}

/// A byte string is a well-shaped cursor encoding.
pub open spec fn spec_shape_ok(bytes: Seq<u8>) -> bool {
    &&& bytes.len() >= 2
    &&& bytes[0] == 0x81
    &&& 0x80 <= bytes[1] <= 0x94
    &&& bytes.len() == 2 + 44 * spec_decode_len(bytes)
    &&& forall|i: int| 0 <= i < spec_decode_len(bytes) ==> #[trigger] spec_chunk_ok_at(bytes, i)
}

/// The cursor a byte string decodes to, if it is well shaped.
pub open spec fn spec_decode(bytes: Seq<u8>) -> Option<Seq<(u64, Seq<u8>)>> {
    if spec_shape_ok(bytes) {
        Some(
            Seq::new(
                spec_decode_len(bytes) as nat,
                |i: int| spec_chunk_point(bytes, 2 + 44 * i),
            ),
        )
    } else {
        None
    }
}

/// Every encoded point takes 44 bytes.
pub proof fn lemma_encode_points_len(ps: Seq<(u64, Seq<u8>)>)
    requires
        forall|i: int| 0 <= i < ps.len() ==> (#[trigger] ps[i]).1.len() == 32,
    ensures
        spec_encode_points(ps).len() == 44 * ps.len(),
    decreases ps.len(),
{
    if ps.len() > 0 {
        assert(ps.last().1.len() == 32);
        lemma_encode_points_len(ps.drop_last());
    }
}

/// The bytes of point `i` sit at offset `44 * i` of the encoded points.
pub proof fn lemma_encode_points_index(ps: Seq<(u64, Seq<u8>)>, i: int)
    requires
        forall|k: int| 0 <= k < ps.len() ==> (#[trigger] ps[k]).1.len() == 32,
        0 <= i < ps.len(),
    ensures
        spec_encode_points(ps).subrange(44 * i, 44 * i + 44) =~= spec_encode_point(ps[i]),
    decreases ps.len(),
{
    lemma_encode_points_len(ps);
    lemma_encode_points_len(ps.drop_last());
    if i == ps.len() - 1 {
        assert(ps.last().1.len() == 32);
    } else {
        lemma_encode_points_index(ps.drop_last(), i);
        assert(spec_encode_points(ps).subrange(44 * i, 44 * i + 44) =~= spec_encode_points(
            ps.drop_last(),
        ).subrange(44 * i, 44 * i + 44));
    }
}

/// The labelled fields of point `i` inside the whole encoding.
#[verifier::rlimit(80)]
proof fn lemma_chunk_fields(ps: Seq<(u64, Seq<u8>)>, bytes: Seq<u8>, i: int)
    requires
        ps.len() <= 20,
        forall|k: int| 0 <= k < ps.len() ==> (#[trigger] ps[k]).1.len() == 32,
        0 <= i < ps.len(),
        bytes == spec_encode(ps),
    ensures
        bytes[2 + 44 * i] == 0x82,
        bytes[2 + 44 * i + 1] == 0x1b,
        bytes[2 + 44 * i + 10] == 0x58,
        bytes[2 + 44 * i + 11] == 0x20,
        bytes.subrange(2 + 44 * i + 2, 2 + 44 * i + 10) =~= spec_be64(ps[i].0),
        bytes.subrange(2 + 44 * i + 12, 2 + 44 * i + 44) =~= ps[i].1,
{
    lemma_encode_points_len(ps);
    lemma_encode_points_index(ps, i);
    let a = 2 + 44 * i;
    let ch = spec_encode_point(ps[i]);
    assert(ps[i].1.len() == 32);
    assert(ch.len() == 44);
    assert(bytes.subrange(a, a + 44) =~= spec_encode_points(ps).subrange(44 * i, 44 * i + 44));
    assert(bytes.subrange(a, a + 44) =~= ch);
    assert forall|j: int| 0 <= j < 44 implies bytes[a + j] == ch[j] by {
        assert(bytes.subrange(a, a + 44)[j] == bytes[a + j]);
    }
    assert(ch[0] == 0x82 && ch[1] == 0x1b && ch[10] == 0x58 && ch[11] == 0x20);
    assert forall|j: int| 0 <= j < 8 implies ch[2 + j] == spec_be64(ps[i].0)[j] by {}
    assert forall|j: int| 0 <= j < 32 implies ch[12 + j] == ps[i].1[j] by {}
}

/// Encoding a cursor and decoding the bytes yields the cursor unchanged.
#[verifier::rlimit(50)]
pub proof fn lemma_cursor_round_trip(ps: Seq<(u64, Seq<u8>)>)
    requires
        ps.len() <= 20,
        forall|i: int| 0 <= i < ps.len() ==> (#[trigger] ps[i]).1.len() == 32,
    ensures
        spec_decode(spec_encode(ps)) == Some(ps),
{
    let bytes = spec_encode(ps);
    let n = ps.len() as int;
    lemma_encode_points_len(ps);
    assert(bytes.len() == 2 + 44 * n);
    assert(bytes[1] == 0x80 + n);
    assert(spec_decode_len(bytes) == n);
    assert forall|i: int| 0 <= i < n implies #[trigger] spec_chunk_ok_at(bytes, i) by {
        lemma_chunk_fields(ps, bytes, i);
    }
    assert(spec_shape_ok(bytes));
    assert forall|i: int| 0 <= i < n implies spec_chunk_point(bytes, 2 + 44 * i) == ps[i] by {
        lemma_chunk_fields(ps, bytes, i);
        lemma_be64_round_trip(ps[i].0);
    }
    let decoded = Seq::new(
        spec_decode_len(bytes) as nat,
        |i: int| spec_chunk_point(bytes, 2 + 44 * i),
    );
    assert(decoded =~= ps);
}

/// Read a big-endian 64-bit integer at offset `o`.
fn read_be64(bytes: &Vec<u8>, o: usize) -> (r: u64)
    requires
        o + 8 <= bytes@.len(),
    ensures
        r == spec_be64_val(bytes@.subrange(o as int, o + 8)),
{
    // Binding the length to a machine word lets the index arithmetic
    // below stay within `usize`.
    let len: usize = bytes.len();
    let r: u64 = (bytes[o] as u64) * 0x100000000000000 + (bytes[o + 1] as u64) * 0x1000000000000
        + (bytes[o + 2] as u64) * 0x10000000000 + (bytes[o + 3] as u64) * 0x100000000 + (bytes[o
        + 4] as u64) * 0x1000000 + (bytes[o + 5] as u64) * 0x10000 + (bytes[o + 6] as u64) * 0x100
        + (bytes[o + 7] as u64);
    proof {
        let s = bytes@.subrange(o as int, o + 8);
        assert(s[0] == bytes@[o as int] && s[1] == bytes@[o + 1] && s[2] == bytes@[o + 2] && s[3]
            == bytes@[o + 3] && s[4] == bytes@[o + 4] && s[5] == bytes@[o + 5] && s[6] == bytes@[o
            + 6] && s[7] == bytes@[o + 7]);
    }
    r
}

/// Serialize the cursor for its on-disk file.
pub fn cursor_encode(c: &Cursor) -> (r: Vec<u8>)
    requires
        c.wf(),
    ensures
        r@ == spec_encode(c@),
{
    let n = c.points.len();
    let mut r: Vec<u8> = Vec::new();
    r.push(0x81);
    r.push(0x80 + n as u8);
    for k in 0..n
        invariant
            n == c@.len() <= 20,
            forall|i: int| 0 <= i < c@.len() ==> (#[trigger] c@[i]).1.len() == 32,
            r@ == seq![0x81u8, (0x80 + n) as u8] + spec_encode_points(c@.take(k as int)),
    {
        let sp = &c.points[k];
        let slot = sp.slot;
        r.push(0x82);
        r.push(0x1b);
        r.push((slot / 0x100000000000000) as u8);
        r.push(((slot / 0x1000000000000) % 256) as u8);
        r.push(((slot / 0x10000000000) % 256) as u8);
        r.push(((slot / 0x100000000) % 256) as u8);
        r.push(((slot / 0x1000000) % 256) as u8);
        r.push(((slot / 0x10000) % 256) as u8);
        r.push(((slot / 0x100) % 256) as u8);
        r.push((slot % 256) as u8);
        r.push(0x58);
        r.push(0x20);
        crate::utils::push_bytes(&mut r, &sp.hash);
        proof {
            assert(c@.take(k + 1).drop_last() =~= c@.take(k as int));
            assert(c@.take(k + 1).last() == c@[k as int]);
            assert(c@[k as int] == sp@);
            assert(r@ =~= seq![0x81u8, (0x80 + n) as u8] + spec_encode_points(c@.take(k + 1)));
        }
    }
    proof {
        assert(c@.take(n as int) =~= c@);
    }
    r
}

/// Parse a cursor file.  Returns the stored cursor, or reports it corrupt:
/// exactly the well-shaped encodings are accepted.
pub fn cursor_decode(bytes: &Vec<u8>) -> (r: Result<Cursor, SlurpError>)
    ensures
        match r {
            Ok(c) => spec_decode(bytes@) == Some(c@) && c.wf(),
            Err(e) => e == SlurpError::CursorCorrupt && spec_decode(bytes@) is None,
        },
{
    if bytes.len() < 2 || bytes[0] != 0x81 || bytes[1] < 0x80 || bytes[1] > 0x94 {
        return Err(SlurpError::CursorCorrupt);
    }
    let n: usize = (bytes[1] - 0x80) as usize;
    if bytes.len() != 2 + 44 * n {
        return Err(SlurpError::CursorCorrupt);
    }
    let mut c = Cursor::new();
    for k in 0..n
        invariant
            n == spec_decode_len(bytes@),
            n <= 20,
            bytes@.len() == 2 + 44 * n,
            bytes@[0] == 0x81,
            c@.len() == k,
            forall|i: int| 0 <= i < k ==> #[trigger] spec_chunk_ok_at(bytes@, i),
            forall|i: int| 0 <= i < k ==> (#[trigger] c@[i]) == spec_chunk_point(bytes@, 2 + 44 * i),
            forall|i: int| 0 <= i < k ==> (#[trigger] c@[i]).1.len() == 32,
    {
        let o: usize = 2 + 44 * k;
        if bytes[o] != 0x82 || bytes[o + 1] != 0x1b || bytes[o + 10] != 0x58 || bytes[o + 11]
            != 0x20 {
            proof {
                assert(!spec_chunk_ok_at(bytes@, k as int));
                assert(!spec_shape_ok(bytes@)) by {
                    if spec_shape_ok(bytes@) {
                        assert(spec_chunk_ok_at(bytes@, k as int));
                    }
                }
            }
            return Err(SlurpError::CursorCorrupt);
        }
        let slot = read_be64(bytes, o + 2);
        let mut hash: Vec<u8> = Vec::new();
        for j in 0..32usize
            invariant
                o + 44 <= bytes@.len(),
                bytes@.len() <= 882,
                hash@ =~= bytes@.subrange(o + 12, o + 12 + j),
        {
            hash.push(bytes[o + 12 + j]);
            proof {
                assert(bytes@.subrange(o + 12, o + 12 + j + 1) =~= bytes@.subrange(
                    o + 12,
                    o + 12 + j,
                ).push(bytes@[o + 12 + j]));
            }
        }
        let sp = crate::cursor::SerializablePoint { slot, hash };
        let ghost pre = c@;
        c.points.push_back(sp);
        proof {
            assert(c@ =~= pre.push(sp@));
            assert(bytes@.subrange(o as int + 12, o as int + 44) =~= bytes@.subrange(
                o + 12,
                o + 12 + 32,
            ));
            assert(spec_be64_val(bytes@.subrange(o as int + 2, o as int + 10)) as u64 == slot);
            assert(spec_chunk_ok_at(bytes@, k as int));
            assert(c@[k as int] == sp@);
            assert(c@[k as int] == spec_chunk_point(bytes@, 2 + 44 * (k as int)));
        }
    }
    proof {
        assert(spec_shape_ok(bytes@));
        let decoded = Seq::new(
            spec_decode_len(bytes@) as nat,
            |i: int| spec_chunk_point(bytes@, 2 + 44 * i),
        );
        assert(decoded =~= c@);
        assert(spec_decode(bytes@) == Some(c@));
    }
    Ok(c)
}

} // verus!
