use move_ir_to_bytecode::ast::ident_str;
use move_ir_to_bytecode::bridge::{event_senders, parse_tx_hash, sui_address_from_bytes, BridgeError};

#[test]
fn event_senders_validate_present_addresses() {
    let senders = vec![Some(vec![1u8; 32]), Some(vec![2u8; 32])];
    let out = event_senders(&senders).unwrap();
    assert_eq!(out, Some(vec![vec![1u8; 32], vec![2u8; 32]]));
    let bad = vec![Some(vec![1u8; 32]), Some(vec![9u8; 5])];
    let err = event_senders(&bad).unwrap_err();
    assert!(matches!(err, BridgeError::InternalError(_)));
}

#[test]
fn event_senders_collapse_on_an_absent_entry() {
    let senders = vec![Some(vec![1u8; 32]), None, Some(vec![2u8; 32])];
    assert_eq!(event_senders(&senders).unwrap(), None);
    // an absent entry ahead of a malformed one still collapses the result
    let mixed = vec![None, Some(vec![9u8; 5])];
    assert_eq!(event_senders(&mixed).unwrap(), None);
}

#[test]
fn identifiers_are_validated() {
    assert_eq!(ident_str("counter"), Some("counter"));
    assert_eq!(ident_str("_private2"), Some("_private2"));
    assert_eq!(ident_str("CamelCase"), Some("CamelCase"));
    assert_eq!(ident_str(""), None);
    assert_eq!(ident_str("2fast"), None);
    assert_eq!(ident_str("has-dash"), None);
    assert_eq!(ident_str("spaced out"), None);
}

#[test]
fn tx_hash_decodes_with_prefix() {
    let mut expected = vec![0u8; 32];
    expected[0] = 0xde;
    expected[1] = 0xad;
    expected[31] = 0x01;
    let hex = "0xdead000000000000000000000000000000000000000000000000000000000001";
    assert_eq!(parse_tx_hash(hex).unwrap(), expected);
}

#[test]
fn tx_hash_decodes_without_prefix() {
    let hex = "00000000000000000000000000000000000000000000000000000000000000ff";
    let decoded = parse_tx_hash(hex).unwrap();
    assert_eq!(decoded.len(), 32);
    assert_eq!(decoded[31], 0xff);
    assert_eq!(decoded[0], 0);
}

#[test]
fn tx_hash_mixed_case_digits() {
    let hex = "0xAbCdEf0000000000000000000000000000000000000000000000000000000000";
    let decoded = parse_tx_hash(hex).unwrap();
    assert_eq!(&decoded[..3], &[0xab, 0xcd, 0xef]);
}

#[test]
fn tx_hash_wrong_length_is_invalid() {
    let err = parse_tx_hash("0x1234").unwrap_err();
    assert!(matches!(err, BridgeError::InvalidTxHash));
    let err = parse_tx_hash("").unwrap_err();
    assert!(matches!(err, BridgeError::InvalidTxHash));
}

#[test]
fn tx_hash_bad_digit_is_invalid() {
    let hex = "0xzz00000000000000000000000000000000000000000000000000000000000000";
    let err = parse_tx_hash(hex).unwrap_err();
    assert!(matches!(err, BridgeError::InvalidTxHash));
}

#[test]
fn sui_address_requires_exactly_32_bytes() {
    let ok = sui_address_from_bytes(&[5u8; 32]).unwrap();
    assert_eq!(ok, vec![5u8; 32]);
    let err = sui_address_from_bytes(&[5u8; 31]).unwrap_err();
    assert!(matches!(err, BridgeError::InternalError(_)));
    let err = sui_address_from_bytes(&[]).unwrap_err();
    assert!(matches!(err, BridgeError::InternalError(_)));
}

#[test]
fn bridge_error_variants_exist_for_handler_outcomes() {
    // the variants the service maps outside failures onto
    let errors = vec![
        BridgeError::OriginTxFailed,
        BridgeError::TxNotFound,
        BridgeError::NoBridgeEventsInTx,
    ];
    assert_eq!(errors.len(), 3);
    let described: BridgeError = BridgeError::InternalError("provider unreachable".to_owned());
    assert!(matches!(described, BridgeError::InternalError(_)));
}
