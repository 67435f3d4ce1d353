use cardano_slurp::codec::{cursor_decode, cursor_encode};
use cardano_slurp::cursor::{Cursor, SerializablePoint};
use cardano_slurp::error::SlurpError;
use cardano_slurp::point::Point;

fn cp(slot: u64, tag: u8) -> Point {
    let mut h = vec![0u8; 32];
    h[0] = tag;
    Point::Specific(slot, h)
}

#[test]
fn add_point_prepends_most_recent_first() {
    let mut c = Cursor::new();
    c.add_point(cp(10, 1));
    c.add_point(cp(20, 2));
    c.add_point(cp(30, 3));
    assert_eq!(c.points.len(), 3);
    assert_eq!(c.points[0].slot, 30);
    assert_eq!(c.points[1].slot, 20);
    assert_eq!(c.points[2].slot, 10);
}

#[test]
fn add_point_caps_the_window_at_twenty() {
    let mut c = Cursor::new();
    for i in 1..=25u64 {
        c.add_point(cp(i * 10, i as u8));
    }
    assert_eq!(c.points.len(), 20);
    // The most recent point sits at the front, the oldest five are gone.
    assert_eq!(c.points[0].slot, 250);
    assert_eq!(c.points[19].slot, 60);
    // Ascending pushes leave the slots strictly decreasing front to back.
    for i in 1..20 {
        assert!(c.points[i - 1].slot > c.points[i].slot);
    }
}

#[test]
fn full_window_round_trips_with_extreme_slots() {
    let mut c = Cursor::new();
    c.add_point(Point::Specific(1, vec![0u8; 32]));
    for i in 2..=19u64 {
        c.add_point(cp(i, i as u8));
    }
    c.add_point(Point::Specific(u64::MAX, vec![0xffu8; 32]));
    assert_eq!(c.points.len(), 20);
    let bytes = cursor_encode(&c);
    assert_eq!(bytes.len(), 2 + 44 * 20);
    let back = cursor_decode(&bytes).expect("full window must decode");
    assert_eq!(back.points, c.points);
    assert_eq!(back.points[0].slot, u64::MAX);
}

#[test]
fn origin_is_stored_as_slot_zero_with_zero_hash() {
    let sp = SerializablePoint::from(Point::Origin);
    assert_eq!(sp.slot, 0);
    assert_eq!(sp.hash, vec![0u8; 32]);
    assert_eq!(sp.into(), Point::Origin);
}

#[test]
fn specific_point_survives_store_and_load() {
    let p = cp(77, 9);
    let sp = SerializablePoint::from(p);
    assert_eq!(sp.slot, 77);
    assert_eq!(sp.into(), cp(77, 9));
}

#[test]
fn to_points_reads_back_in_order() {
    let mut c = Cursor::new();
    c.add_point(cp(10, 1));
    c.add_point(cp(20, 2));
    let ps = c.to_points();
    assert_eq!(ps, vec![cp(20, 2), cp(10, 1)]);
}

#[test]
fn cursor_encoding_has_the_documented_layout() {
    let mut c = Cursor::new();
    c.add_point(Point::Specific(0x0102, vec![0xaa; 32]));
    let bytes = cursor_encode(&c);
    let mut expected: Vec<u8> = vec![0x81, 0x81, 0x82, 0x1b, 0, 0, 0, 0, 0, 0, 0x01, 0x02, 0x58, 0x20];
    expected.extend(vec![0xaa; 32]);
    assert_eq!(bytes, expected);
}

#[test]
fn cursor_codec_round_trips() {
    let mut c = Cursor::new();
    for i in 1..=7u64 {
        c.add_point(cp(i * 1000, i as u8));
    }
    let bytes = cursor_encode(&c);
    let back = cursor_decode(&bytes).expect("round trip must decode");
    assert_eq!(back.points, c.points);
}

#[test]
fn empty_cursor_round_trips() {
    let c = Cursor::new();
    let bytes = cursor_encode(&c);
    assert_eq!(bytes, vec![0x81, 0x80]);
    let back = cursor_decode(&bytes).expect("empty cursor must decode");
    assert_eq!(back.points.len(), 0);
}

#[test]
fn corrupt_cursor_bytes_are_rejected() {
    assert_eq!(cursor_decode(&b"junk".to_vec()), Err(SlurpError::CursorCorrupt));
    assert_eq!(cursor_decode(&vec![]), Err(SlurpError::CursorCorrupt));
    // Wrong outer tag.
    assert_eq!(cursor_decode(&vec![0x82, 0x80]), Err(SlurpError::CursorCorrupt));
    // Truncated: claims one point but holds none.
    assert_eq!(cursor_decode(&vec![0x81, 0x81]), Err(SlurpError::CursorCorrupt));
    // Claims more points than the window can hold.
    assert_eq!(cursor_decode(&vec![0x81, 0x95]), Err(SlurpError::CursorCorrupt));
    // A full-length encoding with a damaged point tag.
    let mut c = Cursor::new();
    c.add_point(cp(5, 1));
    let mut bytes = cursor_encode(&c);
    bytes[2] = 0x83;
    assert_eq!(cursor_decode(&bytes), Err(SlurpError::CursorCorrupt));
}

#[test]
fn cursor_encoding_is_well_formed_cbor() {
    let mut c = Cursor::new();
    for i in 1..=3u64 {
        c.add_point(cp(i * 100, i as u8));
    }
    let bytes = cursor_encode(&c);
    let value: serde_cbor::Value = serde_cbor::from_slice(&bytes).expect("must parse as CBOR");
    match value {
        serde_cbor::Value::Array(fields) => {
            assert_eq!(fields.len(), 1);
            match &fields[0] {
                serde_cbor::Value::Array(points) => assert_eq!(points.len(), 3),
                other => panic!("expected an array of points, got {:?}", other),
            }
        }
        other => panic!("expected an array record, got {:?}", other),
    }
}

#[test]
fn error_descriptions_name_the_failure() {
    assert_eq!(SlurpError::CursorCorrupt.describe(), "stored cursor is corrupt");
    assert_eq!(SlurpError::ProtocolViolation.describe(), "protocol violation");
    assert_eq!(SlurpError::TransportError.describe(), "bearer read or write failed");
    assert_eq!(SlurpError::HandshakeRejected.describe(), "handshake rejected by peer");
    assert_eq!(SlurpError::IoError.describe(), "input/output error");
    assert_eq!(SlurpError::PeerRefused.describe(), "peer refused the connection");
}
