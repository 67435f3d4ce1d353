use cardano_slurp::batcher::{Batcher, ChainEvent};
use cardano_slurp::codec::cursor_encode;
use cardano_slurp::cursor::Cursor;
use cardano_slurp::error::SlurpError;
use cardano_slurp::point::Point;
use cardano_slurp::session::{handle_body, handle_header, resume_cursor};
use pallas::codec::minicbor;
use pallas::codec::utils::{Bytes, KeepRaw};
use pallas::ledger::primitives::{alonzo, VrfCert};
use pallas::ledger::traverse::ComputeHash;

fn sh(slot: u64, seed: u8) -> alonzo::Header {
    alonzo::Header {
        header_body: alonzo::HeaderBody {
            block_number: slot,
            slot,
            prev_hash: Some(pallas::crypto::hash::Hash::<32>::from([seed; 32])),
            issuer_vkey: Bytes::from(vec![2u8; 32]),
            vrf_vkey: Bytes::from(vec![3u8; 32]),
            nonce_vrf: VrfCert(Bytes::from(vec![4u8; 32]), Bytes::from(vec![5u8; 80])),
            leader_vrf: VrfCert(Bytes::from(vec![6u8; 32]), Bytes::from(vec![7u8; 80])),
            block_body_size: 0,
            block_body_hash: pallas::crypto::hash::Hash::<32>::from([8u8; 32]),
            operational_cert_hot_vkey: Bytes::from(vec![9u8; 32]),
            operational_cert_sequence_number: 0,
            operational_cert_kes_period: 0,
            operational_cert_sigma: Bytes::from(vec![10u8; 64]),
            protocol_major: 6,
            protocol_minor: 0,
        },
        body_signature: Bytes::from(vec![seed; 448]),
    }
}

fn sb(slot: u64, seed: u8) -> Vec<u8> {
    let block = alonzo::Block {
        header: KeepRaw::from(sh(slot, seed)),
        transaction_bodies: vec![],
        transaction_witness_sets: vec![],
        auxiliary_data_set: std::collections::BTreeMap::new(),
        invalid_transactions: None,
    };
    minicbor::to_vec(&(4u16, block)).unwrap()
}

#[test]
fn header_write_lands_at_the_point_path() {
    let head = sh(100, 1);
    let bytes = minicbor::to_vec(&head).unwrap();
    let hash = head.compute_hash().to_vec();
    let w = handle_header(&b"headers".to_vec(), &bytes).expect("recognized header");
    assert_eq!(w.point, Point::Specific(100, hash.clone()));
    let expected = format!("headers/0/0/100-{}", hex::encode(&hash));
    assert_eq!(String::from_utf8(w.path).unwrap(), expected);
}

#[test]
fn unknown_header_is_a_protocol_violation() {
    let r = handle_header(&b"headers".to_vec(), &b"\x00junk".to_vec());
    assert_eq!(r.err(), Some(SlurpError::ProtocolViolation));
}

#[test]
fn body_write_advances_the_cursor_front() {
    // After any body write, the cursor's front equals the written point.
    let mut cursor = Cursor::new();
    let body = sb(500, 1);
    let w = handle_body(&b"bodies".to_vec(), &mut cursor, &body).expect("recognized body");
    let hash = match &w.point {
        Point::Specific(_, h) => h.clone(),
        Point::Origin => panic!("expected a specific point"),
    };
    assert_eq!(cursor.points[0].slot, 500);
    assert_eq!(cursor.points[0].hash, hash);
    let expected = format!("bodies/0/0/500-{}", hex::encode(&hash));
    assert_eq!(String::from_utf8(w.path).unwrap(), expected);
    // The serialized cursor it hands back is the cursor just built.
    assert_eq!(w.cursor_bytes, cursor_encode(&cursor));
}

#[test]
fn unknown_body_is_fatal_and_leaves_the_cursor() {
    let mut cursor = Cursor::new();
    cursor.add_point(Point::Specific(5, vec![1u8; 32]));
    let r = handle_body(&b"bodies".to_vec(), &mut cursor, &b"mystery".to_vec());
    assert_eq!(r.err(), Some(SlurpError::ProtocolViolation));
    assert_eq!(cursor.points.len(), 1);
    assert_eq!(cursor.points[0].slot, 5);
}

#[test]
fn identical_bodies_plan_identical_writes() {
    // Two peers that deliver the same block plan the same file at the
    // same path, so their races are idempotent.
    let body = sb(500, 9);
    let mut c1 = Cursor::new();
    let mut c2 = Cursor::new();
    let w1 = handle_body(&b"bodies".to_vec(), &mut c1, &body).unwrap();
    let w2 = handle_body(&b"bodies".to_vec(), &mut c2, &body).unwrap();
    assert_eq!(w1.path, w2.path);
    assert_eq!(w1.point, w2.point);
    assert_eq!(w1.cursor_bytes, w2.cursor_bytes);
}

#[test]
fn clean_sync_of_three_blocks() {
    // Three headers at slots 100, 200, 300 with batch size 2, then the
    // tip: ranges (p1,p2) and (p3,p3); three bodies; cursor front is p3
    // and the cursor holds three points.
    let headers: Vec<Vec<u8>> = (1..=3u64)
        .map(|i| minicbor::to_vec(&sh(i * 100, i as u8)).unwrap())
        .collect();
    let mut batcher = Batcher::new(2);
    let mut ranges = Vec::new();
    let mut points = Vec::new();
    for h in &headers {
        let w = handle_header(&b"headers".to_vec(), h).unwrap();
        points.push(w.point.clone());
        if let Some(r) = batcher.step(ChainEvent::RollForward(w.point)) {
            ranges.push(r);
        }
    }
    if let Some(r) = batcher.step(ChainEvent::Await) {
        ranges.push(r);
    }
    assert_eq!(ranges.len(), 2);
    assert_eq!(ranges[0], (points[0].clone(), points[1].clone()));
    assert_eq!(ranges[1], (points[2].clone(), points[2].clone()));

    let mut cursor = Cursor::new();
    for i in 1..=3u64 {
        handle_body(&b"bodies".to_vec(), &mut cursor, &sb(i * 100, i as u8)).unwrap();
    }
    assert_eq!(cursor.points.len(), 3);
    assert_eq!(cursor.points[0].slot, 300);
}

#[test]
fn restart_resumes_from_the_stored_cursor() {
    // A prior run left points [p5, p4, p3]; a restart reads them back
    // and hands the same list to the intersection query.
    let mut cursor = Cursor::new();
    for i in 3..=5u64 {
        cursor.add_point(Point::Specific(i * 10, vec![i as u8; 32]));
    }
    let stored = cursor_encode(&cursor);
    let reloaded = resume_cursor(Some(&stored), None).expect("stored cursor must load");
    assert_eq!(reloaded.points, cursor.points);
    let ps = reloaded.to_points();
    assert_eq!(ps.len(), 3);
    assert_eq!(ps[0], Point::Specific(50, vec![5u8; 32]));
    assert_eq!(ps[2], Point::Specific(30, vec![3u8; 32]));
}

#[test]
fn fresh_start_uses_the_fallback_point() {
    let fallback = Point::Specific(1234, vec![7u8; 32]);
    let c = resume_cursor(None, Some(&fallback)).unwrap();
    assert_eq!(c.points.len(), 1);
    assert_eq!(c.points[0].slot, 1234);
    assert_eq!(c.points[0].hash, vec![7u8; 32]);
}

#[test]
fn fresh_start_without_fallback_uses_the_origin() {
    let c = resume_cursor(None, None).unwrap();
    assert_eq!(c.points.len(), 1);
    assert_eq!(c.points[0].slot, 0);
    assert_eq!(c.points[0].hash, vec![0u8; 32]);
    assert_eq!(c.to_points(), vec![Point::Origin]);
}

#[test]
fn corrupt_stored_cursor_is_fatal() {
    let r = resume_cursor(Some(&b"rotten".to_vec()), None);
    assert_eq!(r.err(), Some(SlurpError::CursorCorrupt));
}

#[test]
fn rerunning_the_same_stream_plans_identical_artifacts() {
    // Re-running over the same header stream produces byte-identical
    // write plans.
    let stream: Vec<Vec<u8>> = (1..=4u64)
        .map(|i| minicbor::to_vec(&sh(i * 1000, i as u8)).unwrap())
        .collect();
    let run = |s: &Vec<Vec<u8>>| -> Vec<(Vec<u8>, Vec<u8>)> {
        s.iter()
            .map(|h| {
                let w = handle_header(&b"headers".to_vec(), h).unwrap();
                (w.path, h.clone())
            })
            .collect()
    };
    assert_eq!(run(&stream), run(&stream));
}
