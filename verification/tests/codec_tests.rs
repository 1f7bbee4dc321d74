use minter::errors::ContractError;
use minter::ids::{base_of, dec_u64, format_token_id, parse_token_id};

#[test]
fn decimal_rendering() {
    assert_eq!(dec_u64(0), "0");
    assert_eq!(dec_u64(7), "7");
    assert_eq!(dec_u64(10), "10");
    assert_eq!(dec_u64(1234567890), "1234567890");
    assert_eq!(dec_u64(u64::MAX), "18446744073709551615");
}

#[test]
fn format_builds_composite_id() {
    assert_eq!(format_token_id(&"chip".to_string(), 1), "chip_1");
    assert_eq!(format_token_id(&"my_chip".to_string(), 12), "my_chip_12");
}

#[test]
fn base_strips_counter_suffix() {
    assert_eq!(base_of(&"chip_1".to_string()), "chip");
    assert_eq!(base_of(&"my_chip_12".to_string()), "my_chip");
    assert_eq!(base_of(&"nounderscore".to_string()), "nounderscore");
    assert_eq!(base_of(&"trailing_".to_string()), "trailing");
}

#[test]
fn parse_round_trips_formatted_ids() {
    let id = format_token_id(&"my_chip".to_string(), 42);
    let (base, count) = parse_token_id(&id).unwrap();
    assert_eq!(base, "my_chip");
    assert_eq!(count, 42);
}

#[test]
fn parse_rejects_malformed_ids() {
    for bad in ["nounderscore", "x_", "x_12a", "x_1_2b", "x_99999999999999999999"] {
        let r = parse_token_id(&bad.to_string());
        assert!(matches!(r, Err(ContractError::InvalidTokenId { .. })), "{bad}");
    }
}
