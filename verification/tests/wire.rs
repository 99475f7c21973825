use txboost::bundle::{BundleHash, SendBundleRequest, SimulateBundleRequest, StateBlockNumber};
use txboost::jsonrpc::{encode_request, decode_response, Decoded};
use txboost::text::{parse_hex_u64, u64_to_dec, u64_to_hex};

const ONES: &str = "0x1111111111111111111111111111111111111111111111111111111111111111";
const TWOS: &str = "0x2222222222222222222222222222222222222222222222222222222222222222";

fn h(b: u8) -> BundleHash {
    BundleHash { bytes: [b; 32] }
}

#[test]
fn decimal_rendering() {
    assert_eq!(u64_to_dec(0), "0");
    assert_eq!(u64_to_dec(7), "7");
    assert_eq!(u64_to_dec(1234567890), "1234567890");
    assert_eq!(u64_to_dec(u64::MAX), "18446744073709551615");
}

#[test]
fn hex_rendering() {
    assert_eq!(u64_to_hex(0), "0");
    assert_eq!(u64_to_hex(16), "10");
    assert_eq!(u64_to_hex(255), "ff");
    assert_eq!(u64_to_hex(u64::MAX), "ffffffffffffffff");
}

#[test]
fn hex_parsing() {
    assert_eq!(parse_hex_u64("10"), Some(16));
    assert_eq!(parse_hex_u64("0"), Some(0));
    assert_eq!(parse_hex_u64("FF"), Some(255));
    assert_eq!(parse_hex_u64("ffffffffffffffff"), Some(u64::MAX));
    assert_eq!(parse_hex_u64(""), None);
    assert_eq!(parse_hex_u64("xyz"), None);
    assert_eq!(parse_hex_u64("0x10"), None);
    assert_eq!(parse_hex_u64("10000000000000000"), None);
}

#[test]
fn state_block_number_serializes() {
    assert_eq!(StateBlockNumber::Latest.serialize(), "latest");
    assert_eq!(StateBlockNumber::Number(16).serialize(), "10");
    assert_eq!(StateBlockNumber::Number(0).serialize(), "0");
}

#[test]
fn state_block_number_deserializes() {
    assert_eq!(StateBlockNumber::deserialize("latest"), Some(StateBlockNumber::Latest));
    assert_eq!(StateBlockNumber::deserialize("10"), Some(StateBlockNumber::Number(16)));
    assert_eq!(StateBlockNumber::deserialize("xyz"), None);
    assert_eq!(StateBlockNumber::deserialize("Latest"), None);
    assert_eq!(StateBlockNumber::deserialize(""), None);
}

#[test]
fn state_block_number_round_trips() {
    for b in [StateBlockNumber::Latest, StateBlockNumber::Number(0),
        StateBlockNumber::Number(16), StateBlockNumber::Number(u64::MAX)] {
        assert_eq!(StateBlockNumber::deserialize(&b.serialize()), Some(b));
    }
}

#[test]
fn state_block_number_defaults_to_latest() {
    assert_eq!(StateBlockNumber::default(), StateBlockNumber::Latest);
}

#[test]
fn send_bundle_encoding_exact() {
    let req = SendBundleRequest::new(vec![h(0x11)], 16);
    let expected = format!("{{\"txs\":[\"{}\"],\"blockNumber\":\"0x10\"}}", ONES);
    assert_eq!(req.encode(), expected);
}

#[test]
fn send_bundle_empty_txs_encoding() {
    let req = SendBundleRequest::new(Vec::new(), 0);
    assert_eq!(req.encode(), "{\"txs\":[],\"blockNumber\":\"0x0\"}");
}

#[test]
fn send_bundle_two_txs_encoding() {
    let req = SendBundleRequest::new(vec![h(0x11), h(0x22)], 1);
    let expected = format!("{{\"txs\":[\"{}\",\"{}\"],\"blockNumber\":\"0x1\"}}", ONES, TWOS);
    assert_eq!(req.encode(), expected);
}

#[test]
fn send_bundle_all_fields_encoding() {
    let req = SendBundleRequest::new(vec![h(0x11)], 16)
        .with_min_timestamp(1)
        .with_max_timestamp(2)
        .with_reverting_tx_hashes(vec![h(0x22)]);
    let expected = format!(
        "{{\"txs\":[\"{}\"],\"blockNumber\":\"0x10\",\"minTimestamp\":1,\"maxTimestamp\":2,\"revertingTxHashes\":[\"{}\"]}}",
        ONES, TWOS);
    let encoded = req.encode();
    assert_eq!(encoded, expected);
    assert!(encoded.contains("\"minTimestamp\":1"));
    assert!(encoded.contains("\"maxTimestamp\":2"));
    assert!(encoded.contains("\"revertingTxHashes\""));
}

#[test]
fn send_bundle_unset_fields_are_omitted() {
    let encoded = SendBundleRequest::new(vec![h(0x11)], 16).encode();
    assert!(!encoded.contains("minTimestamp"));
    assert!(!encoded.contains("maxTimestamp"));
    assert!(!encoded.contains("revertingTxHashes"));
}

#[test]
fn send_bundle_default_is_empty() {
    let req = SendBundleRequest::default();
    assert!(req.txs.is_empty());
    assert_eq!(req.block_number, 0);
    assert!(req.min_timestamp.is_none());
    assert!(req.max_timestamp.is_none());
    assert!(req.reverting_tx_hashes.is_none());
}

#[test]
fn simulate_bundle_encoding() {
    let req = SimulateBundleRequest::new(vec![h(0x11)], 255, StateBlockNumber::Latest);
    let expected = format!(
        "{{\"txs\":[\"{}\"],\"blockNumber\":\"0xff\",\"stateBlockNumber\":\"latest\"}}", ONES);
    assert_eq!(req.encode(), expected);
    assert_eq!(req.block(), 255);
}

#[test]
fn simulate_bundle_encoding_with_timestamp_and_block() {
    let req = SimulateBundleRequest::new(vec![h(0x11)], 255, StateBlockNumber::Latest)
        .state_block_number(StateBlockNumber::Number(16))
        .timestamp(7);
    let expected = format!(
        "{{\"txs\":[\"{}\"],\"blockNumber\":\"0xff\",\"stateBlockNumber\":\"10\",\"timestamp\":7}}",
        ONES);
    assert_eq!(req.encode(), expected);
}

#[test]
fn request_envelope_encoding() {
    let body = encode_request(1, "eth_sendBundle", "[]");
    assert_eq!(body, "{\"id\":1,\"jsonrpc\":\"2.0\",\"method\":\"eth_sendBundle\",\"params\":[]}");
}

#[test]
fn decode_success_with_result() {
    match decode_response("{\"id\":7,\"jsonrpc\":\"2.0\",\"result\":{\"x\":1}}") {
        Decoded::Success { id, result } => {
            assert_eq!(id, 7);
            assert_eq!(result, "{\"x\":1}");
        },
        _ => panic!("expected a success envelope"),
    }
}

#[test]
fn decode_null_result() {
    match decode_response("{\"id\":1,\"jsonrpc\":\"2.0\",\"result\":null}") {
        Decoded::Success { id, result } => {
            assert_eq!(id, 1);
            assert_eq!(result, "null");
        },
        _ => panic!("expected a success envelope"),
    }
}

#[test]
fn decode_error_envelope() {
    match decode_response(
        "{\"id\":1,\"jsonrpc\":\"2.0\",\"error\":{\"code\":-32000,\"message\":\"bundle too large\"}}",
    ) {
        Decoded::Failure { id, error } => {
            assert_eq!(id, 1);
            assert_eq!(error.code, -32000);
            assert_eq!(error.message, "bundle too large");
            assert!(error.data.is_none());
        },
        _ => panic!("expected an error envelope"),
    }
}

#[test]
fn decode_error_envelope_with_data() {
    match decode_response(
        "{\"id\":2,\"jsonrpc\":\"2.0\",\"error\":{\"code\":3,\"message\":\"m\",\"data\":[1,2]}}",
    ) {
        Decoded::Failure { id, error } => {
            assert_eq!(id, 2);
            assert_eq!(error.code, 3);
            assert_eq!(error.message, "m");
            assert_eq!(error.data.as_deref(), Some("[1,2]"));
        },
        _ => panic!("expected an error envelope"),
    }
}

#[test]
fn decode_rejects_malformed_bodies() {
    for body in ["", "garbage", "{\"id\":,\"jsonrpc\":\"2.0\",\"result\":1}",
        "{\"id\":1,\"jsonrpc\":\"1.0\",\"result\":1}",
        "{\"id\":1,\"jsonrpc\":\"2.0\",\"result\":}",
        "{\"id\":18446744073709551616,\"jsonrpc\":\"2.0\",\"result\":1}",
        "{\"jsonrpc\":\"2.0\",\"result\":1}",
        "{\"id\":1,\"jsonrpc\":\"2.0\",\"result\":1,\"error\":{\"code\":1,\"message\":\"m\"}}",
        "{\"id\":1,\"id\":2,\"jsonrpc\":\"2.0\",\"result\":1}",
        "{\"id\":1,\"jsonrpc\":\"2.0\",\"result\":1} trailing",
        "{\"id\":1,\"jsonrpc\":\"2.0\",\"result\":1,\"x}",
        "{\"id\":1,\"jsonrpc\":\"2.0\",\"result\":xyz}",
        "{\"id\":1,\"jsonrpc\":\"2.0\",\"error\":{\"code\":-1}}"] {
        assert!(matches!(decode_response(body), Decoded::Malformed), "body: {body}");
    }
}

#[test]
fn decode_accepts_any_member_order() {
    match decode_response("{\"jsonrpc\":\"2.0\",\"id\":1,\"result\":null}") {
        Decoded::Success { id, result } => {
            assert_eq!(id, 1);
            assert_eq!(result, "null");
        },
        _ => panic!("expected a success envelope"),
    }
    match decode_response("{\"result\":7,\"id\":3,\"jsonrpc\":\"2.0\"}") {
        Decoded::Success { id, result } => {
            assert_eq!(id, 3);
            assert_eq!(result, "7");
        },
        _ => panic!("expected a success envelope"),
    }
}

#[test]
fn decode_accepts_insignificant_whitespace() {
    match decode_response("  {\"id\": 1, \"jsonrpc\": \"2.0\", \"result\": {\"a\": 1}}\n") {
        Decoded::Success { id, result } => {
            assert_eq!(id, 1);
            assert_eq!(result, "{\"a\": 1}");
        },
        _ => panic!("expected a success envelope"),
    }
}

#[test]
fn decode_unescapes_the_message() {
    match decode_response(
        "{\"id\":1,\"jsonrpc\":\"2.0\",\"error\":{\"message\":\"a \\\"b\\\" \\\\ \\n c\",\"code\":-1}}",
    ) {
        Decoded::Failure { id, error } => {
            assert_eq!(id, 1);
            assert_eq!(error.code, -1);
            assert_eq!(error.message, "a \"b\" \\ \n c");
        },
        _ => panic!("expected an error envelope"),
    }
}

#[test]
fn decode_skips_unknown_members() {
    match decode_response(
        "{\"id\":2,\"extra\":[1,{\"x\":\"}\"}],\"jsonrpc\":\"2.0\",\"result\":[1,2]}",
    ) {
        Decoded::Success { id, result } => {
            assert_eq!(id, 2);
            assert_eq!(result, "[1,2]");
        },
        _ => panic!("expected a success envelope"),
    }
}

#[test]
fn decode_reads_an_absent_result_as_null() {
    match decode_response("{\"id\":5,\"jsonrpc\":\"2.0\"}") {
        Decoded::Success { id, result } => {
            assert_eq!(id, 5);
            assert_eq!(result, "null");
        },
        _ => panic!("expected a success envelope"),
    }
}

#[test]
fn decode_delimits_nested_results() {
    match decode_response(
        "{\"id\":1,\"jsonrpc\":\"2.0\",\"result\":{\"s\":\"}\",\"v\":[{\"w\":1}]}}",
    ) {
        Decoded::Success { id, result } => {
            assert_eq!(id, 1);
            assert_eq!(result, "{\"s\":\"}\",\"v\":[{\"w\":1}]}");
        },
        _ => panic!("expected a success envelope"),
    }
}
