use cardano_slurp::point::Point;
use cardano_slurp::utils::{artifact_path, hex_encode, u64_to_dec};

fn hp(slot: u64, hash: Vec<u8>) -> Point {
    Point::Specific(slot, hash)
}

#[test]
fn low_slots_land_in_the_zero_buckets() {
    let h = vec![0xabu8; 32];
    let path = artifact_path(&b"headers".to_vec(), &hp(100, h.clone()));
    let expected = format!("headers/0/0/100-{}", hex::encode(&h));
    assert_eq!(String::from_utf8(path).unwrap(), expected);
}

#[test]
fn buckets_roll_over_on_their_boundaries() {
    // Slot 200_000_001: upper bucket 200_000_000, lower bucket
    // 200_000_000 (the slot is one past the lower boundary).
    let h = vec![0x01u8; 32];
    let path = artifact_path(&b"b".to_vec(), &hp(200_000_001, h.clone()));
    let expected = format!("b/200000000/200000000/200000001-{}", hex::encode(&h));
    assert_eq!(String::from_utf8(path).unwrap(), expected);
}

#[test]
fn mid_range_slot_buckets() {
    let h = vec![0x7fu8; 32];
    let path = artifact_path(&b"bodies".to_vec(), &hp(450_000, h.clone()));
    let expected = format!("bodies/0/400000/450000-{}", hex::encode(&h));
    assert_eq!(String::from_utf8(path).unwrap(), expected);
}

#[test]
fn hex_encoding_matches_the_reference() {
    let samples: Vec<Vec<u8>> = vec![
        vec![],
        vec![0x00],
        vec![0x0f, 0xf0, 0xff],
        (0u8..=255).collect(),
    ];
    for bytes in samples {
        let ours = hex_encode(&bytes);
        assert_eq!(String::from_utf8(ours).unwrap(), hex::encode(&bytes));
    }
}

#[test]
fn different_points_get_different_file_names() {
    // The file name pins down the point: slot or hash differences show.
    let h1 = vec![0x01u8; 32];
    let h2 = vec![0x02u8; 32];
    let base = b"bodies".to_vec();
    let p_a = artifact_path(&base, &hp(100, h1.clone()));
    let p_b = artifact_path(&base, &hp(100, h2));
    let p_c = artifact_path(&base, &hp(101, h1));
    assert_ne!(p_a, p_b);
    assert_ne!(p_a, p_c);
}

#[test]
fn decimal_formatting_covers_the_edges() {
    assert_eq!(u64_to_dec(0), b"0".to_vec());
    assert_eq!(u64_to_dec(7), b"7".to_vec());
    assert_eq!(u64_to_dec(10), b"10".to_vec());
    assert_eq!(u64_to_dec(200_000_000), b"200000000".to_vec());
    assert_eq!(u64_to_dec(u64::MAX), b"18446744073709551615".to_vec());
}
