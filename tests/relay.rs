use relayer::address::{parse_contract_address, DEFAULT_TARGET_CONTRACT};
use relayer::block::{parse_block_reference, BlockRef};
use relayer::error::ProofError;
use relayer::relay::{prepare_query, respond_to_reply, ProofRequest, ProofResponse, UpstreamReply};
use relayer::slot::parse_storage_slot;

fn slot_hex(s: &str) -> String {
    parse_storage_slot(s).unwrap().to_hex()
}

#[test]
fn short_slot_is_left_padded() {
    let slot = parse_storage_slot("0x1").unwrap();
    let mut expected = vec![0u8; 32];
    expected[31] = 1;
    assert_eq!(slot.bytes, expected);
    assert_eq!(slot.to_hex(), format!("0x{}1", "0".repeat(63)));
}

#[test]
fn slot_round_trip_lowers_and_pads() {
    assert_eq!(slot_hex("0xABcd"), format!("0x{}abcd", "0".repeat(60)));
    assert_eq!(slot_hex("abc"), format!("0x{}abc", "0".repeat(61)));
}

#[test]
fn full_width_slot_is_kept() {
    let digits = "0123456789abcdef".repeat(4);
    assert_eq!(slot_hex(&format!("0x{}", digits)), format!("0x{}", digits));
}

#[test]
fn over_long_slot_is_refused() {
    let digits = format!("01{}", "00".repeat(32));
    assert_eq!(parse_storage_slot(&digits).unwrap_err(), ProofError::MalformedInput);
    assert_eq!(parse_storage_slot(&format!("0x{}", "f".repeat(65))).unwrap_err(), ProofError::MalformedInput);
}

#[test]
fn slot_with_bad_digit_is_refused() {
    assert_eq!(parse_storage_slot("0xzz").unwrap_err(), ProofError::MalformedInput);
    assert_eq!(parse_storage_slot("0x 1").unwrap_err(), ProofError::MalformedInput);
}

#[test]
fn repeated_prefixes_and_empty_slot() {
    assert_eq!(slot_hex("0x0x12"), format!("0x{}12", "0".repeat(62)));
    assert_eq!(parse_storage_slot("").unwrap().bytes, vec![0u8; 32]);
    assert_eq!(parse_storage_slot("0x").unwrap().bytes, vec![0u8; 32]);
}

#[test]
fn block_tags() {
    assert_eq!(parse_block_reference("latest"), Ok(BlockRef::Latest));
    assert_eq!(parse_block_reference("earliest"), Ok(BlockRef::Earliest));
    assert_eq!(parse_block_reference("pending"), Ok(BlockRef::Pending));
    assert_eq!(parse_block_reference("safe"), Ok(BlockRef::Safe));
    assert_eq!(parse_block_reference("finalized"), Ok(BlockRef::Finalized));
    assert_eq!(parse_block_reference("Latest"), Err(ProofError::MalformedInput));
}

#[test]
fn block_numbers() {
    assert_eq!(parse_block_reference("0x10"), Ok(BlockRef::Number(16)));
    assert_eq!(parse_block_reference("0xFf"), Ok(BlockRef::Number(255)));
    assert_eq!(parse_block_reference("16"), Ok(BlockRef::Number(16)));
    assert_eq!(parse_block_reference("+7"), Ok(BlockRef::Number(7)));
    assert_eq!(parse_block_reference("0x"), Ok(BlockRef::Number(0)));
    assert_eq!(parse_block_reference("18446744073709551615"), Ok(BlockRef::Number(u64::MAX)));
    assert_eq!(parse_block_reference("0xffffffffffffffff"), Ok(BlockRef::Number(u64::MAX)));
}

#[test]
fn malformed_block_numbers() {
    assert_eq!(parse_block_reference(""), Err(ProofError::MalformedInput));
    assert_eq!(parse_block_reference("+"), Err(ProofError::MalformedInput));
    assert_eq!(parse_block_reference("-1"), Err(ProofError::MalformedInput));
    assert_eq!(parse_block_reference("abc"), Err(ProofError::MalformedInput));
    assert_eq!(parse_block_reference("18446744073709551616"), Err(ProofError::MalformedInput));
    assert_eq!(parse_block_reference("0x10000000000000000"), Err(ProofError::MalformedInput));
    assert_eq!(parse_block_reference("0xg"), Err(ProofError::MalformedInput));
}

#[test]
fn default_contract_address_decodes() {
    let a = parse_contract_address(DEFAULT_TARGET_CONTRACT).unwrap();
    assert_eq!(a.bytes.len(), 20);
    assert_eq!(a.bytes[0], 0xda);
    assert_eq!(a.bytes[19], 0xc7);
    let spaced = parse_contract_address("dAC17F958D2ee523a2206206994597C13D831ec7 ").unwrap();
    assert_eq!(spaced.bytes, a.bytes);
}

#[test]
fn malformed_contract_address() {
    assert_eq!(parse_contract_address("0x123").unwrap_err(), ProofError::MalformedInput);
    assert_eq!(parse_contract_address(&format!("0x{}", "a".repeat(42))).unwrap_err(), ProofError::MalformedInput);
    assert_eq!(parse_contract_address(&format!("0x{}", "g".repeat(40))).unwrap_err(), ProofError::MalformedInput);
}

#[test]
fn query_from_request() {
    let req = ProofRequest {
        block_number: "0x10".to_string(),
        storage_slot: "0x1".to_string(),
        contract_address: None,
    };
    let q = req.to_query().unwrap();
    assert_eq!(q.block, BlockRef::Number(16));
    assert_eq!(q.slot.bytes[31], 1);
    assert_eq!(q.contract.bytes, parse_contract_address(DEFAULT_TARGET_CONTRACT).unwrap().bytes);
}

#[test]
fn query_with_named_contract() {
    let contract = format!("0x{}", "11".repeat(20));
    let q = prepare_query(&contract, "latest", "0x02").unwrap();
    assert_eq!(q.contract.bytes, vec![0x11u8; 20]);
    assert_eq!(q.block, BlockRef::Latest);
    assert_eq!(q.slot.bytes[31], 2);
}

#[test]
fn malformed_query_parts() {
    assert_eq!(prepare_query("0x12", "latest", "0x1").unwrap_err(), ProofError::MalformedInput);
    assert_eq!(prepare_query(DEFAULT_TARGET_CONTRACT, "soon", "0x1").unwrap_err(), ProofError::MalformedInput);
    let long_slot = format!("0x{}", "ab".repeat(33));
    assert_eq!(prepare_query(DEFAULT_TARGET_CONTRACT, "latest", &long_slot).unwrap_err(), ProofError::MalformedInput);
}

#[test]
fn reachable_node_gives_hex_nodes() {
    let nodes = vec![vec![0xf9u8, 0x02, 0x11, 0xa0], vec![0xf9u8, 0x01, 0x11, 0xa0]];
    let r = respond_to_reply(&UpstreamReply::Proof(vec![nodes]));
    assert!(r.success);
    assert_eq!(r.error, None);
    assert_eq!(r.merkle_proof, vec!["0xf90211a0".to_string(), "0xf90111a0".to_string()]);
}

#[test]
fn proof_order_matches_upstream() {
    let nodes: Vec<Vec<u8>> = vec![vec![3], vec![1, 2], vec![], vec![3], vec![0xff, 0x00]];
    let r = ProofResponse::from_nodes(&nodes);
    assert_eq!(r.merkle_proof, vec!["0x03", "0x0102", "0x", "0x03", "0xff00"]);
}

#[test]
fn unreachable_node_gives_no_proof() {
    let r = respond_to_reply(&UpstreamReply::Unreachable);
    assert!(!r.success);
    assert!(r.merkle_proof.is_empty());
    assert_eq!(r.error, Some(ProofError::EndpointUnreachable));
}

#[test]
fn upstream_errors_give_no_proof() {
    let r = respond_to_reply(&UpstreamReply::RpcError);
    assert!(!r.success);
    assert!(r.merkle_proof.is_empty());
    assert_eq!(r.error, Some(ProofError::UpstreamError));
    let empty = respond_to_reply(&UpstreamReply::Proof(vec![]));
    assert!(!empty.success);
    assert!(empty.merkle_proof.is_empty());
    assert_eq!(empty.error, Some(ProofError::UpstreamError));
}

#[test]
fn failure_response_and_codes() {
    let r = ProofResponse::failure(ProofError::MalformedInput);
    assert!(!r.success);
    assert!(r.merkle_proof.is_empty());
    assert_eq!(ProofError::MalformedInput.code(), "malformed_input");
    assert_eq!(ProofError::EndpointUnreachable.code(), "endpoint_unreachable");
    assert_eq!(ProofError::UpstreamError.code(), "upstream_error");
}
