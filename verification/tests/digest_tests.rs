use minter::digest::entropy_draw;
use sha2::Digest;

/// Recomputes the protocol's draw directly with the hash crate: decimal
/// timestamp, account and tag concatenated, SHA-256, first sixteen bytes
/// little-endian, modulo 100.
fn expected_draw(nanos: u64, sender: &str, tag: &str) -> u8 {
    let preimage = format!("{}{}{}", nanos, sender, tag);
    let digest = sha2::Sha256::digest(preimage.as_bytes());
    let mut sixteen = [0u8; 16];
    sixteen.copy_from_slice(&digest[0..16]);
    (u128::from_le_bytes(sixteen) % 100) as u8
}

#[test]
fn draw_matches_direct_hash_computation() {
    let cases: Vec<(u64, &str, &str)> = vec![
        (0, "alice", ""),
        (1699999999123456789, "terra1sender", "chip_a"),
        (42, "", "x"),
        (u64::MAX, "bob", "season_one_chip"),
    ];
    for (nanos, sender, tag) in cases {
        let got = entropy_draw(nanos, &sender.to_string(), &tag.to_string());
        assert_eq!(got, expected_draw(nanos, sender, tag), "{nanos} {sender} {tag}");
        assert!(got < 100);
    }
}

#[test]
fn draw_is_deterministic_in_its_inputs() {
    let a = entropy_draw(123456789, &"alice".to_string(), &"chip".to_string());
    let b = entropy_draw(123456789, &"alice".to_string(), &"chip".to_string());
    assert_eq!(a, b);
    let c = entropy_draw(123456790, &"alice".to_string(), &"chip".to_string());
    let d = entropy_draw(123456789, &"alicf".to_string(), &"chip".to_string());
    let _ = (c, d);
}
