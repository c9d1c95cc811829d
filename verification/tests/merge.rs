use spreadeater::trading::ctf_merge::relayer::{
    parse_safe_nonce, relayer_http_status_is_retryable, relayer_state_is_failure,
    relayer_state_is_success, request_refused,
    safe_transaction_error_is_retryable_terminal_failure, sends_again, submitted, terminal_hash,
    tries_again, truncate_response_body, Lookup, PollStep, RelayerTransactionStatus, SubmitStep,
    TransactionWait, RELAYER_MAX_POLLS,
};
use spreadeater::trading::ctf_merge::{
    derive_address, encode_merge_positions, encode_set_approval_for_all, left_pad_address,
    normalize_address_hex, parse_address, parse_bytes32, parse_exact_address, u256_bytes,
    AddressError, Bytes32Error, CtfMerger, MergeStep, MergeVenue, MergerError, CTF_ADDRESS,
    NEG_RISK_ADAPTER_ADDRESS, USDC_ADDRESS,
};

const KEY: &str = "0x0000000000000000000000000000000000000000000000000000000000000001";
const SIGNER: &str = "0x7e5f4552091a69125d5dfcb7b8c2659029395bdf";
const SAFE: &str = "0x1111111111111111111111111111111111111111";
const CONDITION: &str = "0x2222222222222222222222222222222222222222222222222222222222222222";

fn merger() -> CtfMerger {
    CtfMerger::new(KEY, SIGNER, SAFE, "api-key", SIGNER).expect("a merger")
}

fn hex_text(bytes: &[u8]) -> String {
    bytes.iter().map(|b| format!("{b:02x}")).collect()
}

fn status(state: &str, hash: &str) -> RelayerTransactionStatus {
    RelayerTransactionStatus {
        transaction_id: "tx-1".to_string(),
        transaction_hash: hash.to_string(),
        state: state.to_string(),
    }
}

#[test]
fn keys_have_their_addresses() {
    let mut key = vec![0u8; 32];
    key[31] = 1;
    assert_eq!(derive_address(&key), SIGNER);
    key[31] = 2;
    assert_eq!(
        derive_address(&key),
        "0x2b5ad5c4795c026514f8317c7a215e218dccd6cf"
    );
}

#[test]
fn words_are_written_from_the_left() {
    let word = u256_bytes(0x0102);
    assert_eq!(word.len(), 32);
    assert_eq!(&word[30..], &[1, 2]);
    assert!(word[..30].iter().all(|b| *b == 0));
    let padded = left_pad_address(&parse_address(SAFE));
    assert_eq!(padded.len(), 32);
    assert_eq!(padded[11], 0);
    assert_eq!(padded[12], 0x11);
}

#[test]
fn addresses_are_normalized() {
    let normal = normalize_address_hex(USDC_ADDRESS).expect("an address");
    assert_eq!(normal, "0x2791bca1f2de4661ed88a30c99a7a9449aa84174");
    assert_eq!(normalize_address_hex(&normal).unwrap(), normal);
    assert!(parse_exact_address(CTF_ADDRESS).is_ok());
    assert!(matches!(
        parse_exact_address("0x12"),
        Err(AddressError::WrongLength(_))
    ));
    assert!(matches!(
        parse_exact_address("0xzz"),
        Err(AddressError::InvalidHex)
    ));
}

#[test]
fn long_words_are_refused() {
    assert_eq!(parse_bytes32("0x01").unwrap().len(), 32);
    assert!(matches!(parse_bytes32("0x1"), Err(Bytes32Error::InvalidHex)));
    assert!(matches!(
        parse_bytes32(&format!("{CONDITION}00")),
        Err(Bytes32Error::TooLong)
    ));
}

#[test]
fn calls_start_with_their_selectors() {
    let approval = encode_set_approval_for_all(NEG_RISK_ADAPTER_ADDRESS).unwrap();
    assert_eq!(hex_text(&approval[..4]), "a22cb465");
    assert_eq!(approval.len(), 68);
    assert_eq!(approval[67], 1);
    let merge = encode_merge_positions(CONDITION, 5_000_000).unwrap();
    assert_eq!(hex_text(&merge[..4]), "9e7212ad");
    assert_eq!(merge.len() % 32, 4);
    assert!(encode_merge_positions("0xq", 1).is_err());
}

#[test]
fn transactions_are_hashed_and_signed() {
    let merger = merger();
    assert_eq!(
        hex_text(&merger.compute_safe_domain_separator()),
        "9d7cc2704796172af167f1918bcfd2325d7ff2a7caff961d3e1d33ebf98ba1d1"
    );
    let to = parse_exact_address(USDC_ADDRESS).unwrap();
    let hash = merger.compute_safe_tx_hash_for(&vec![1, 2, 3], &to, 7);
    assert_eq!(
        hex_text(&hash),
        "e3835ec6525dad861cafffa784b65f58125ecb682da87f9beb7a3eacaca6547f"
    );
    let signature = merger.sign_hash(&hash).expect("a signature");
    assert_eq!(
        hex_text(&signature),
        "5b298e8c83615f1b9452ab38413ccb57bf4b8f42d83bfee716b55cc448dea58504a796991f78c1ffe05270beb9d89af4f0eaabefb8ae99521069dd626962ce3d20"
    );
}

#[test]
fn faulty_setups_are_refused() {
    let refused = |key: &str, signer: &str, safe: &str, api_key: &str, owner: &str| {
        CtfMerger::new(key, signer, safe, api_key, owner).unwrap_err()
    };
    assert!(matches!(
        refused("0xzz", SIGNER, SAFE, "k", SIGNER),
        MergerError::PrivateKeyHex
    ));
    let zero_key = "0".repeat(64);
    assert!(matches!(
        refused(&zero_key, SIGNER, SAFE, "k", SIGNER),
        MergerError::PrivateKey
    ));
    assert!(matches!(
        refused(KEY, "0x12", SAFE, "k", SIGNER),
        MergerError::Address(_, AddressError::WrongLength(_))
    ));
    assert!(matches!(
        refused(KEY, SIGNER, SAFE, "  ", SIGNER),
        MergerError::EmptyApiKey
    ));
    let mismatch = refused(KEY, SAFE, SAFE, "k", SIGNER);
    assert!(mismatch.message().contains("does not match"));
    assert!(matches!(
        refused(KEY, SIGNER, SAFE, "k", SAFE),
        MergerError::ApiKeyMismatch(_, _)
    ));
    assert!(matches!(
        CtfMerger::new_with_relayer_url(KEY, SIGNER, SAFE, "k", SIGNER, "/"),
        Err(MergerError::EmptyBaseUrl)
    ));
}

#[test]
fn negative_risk_needs_one_approval() {
    let mut merger = merger();
    assert!(matches!(merger.merge_positions(0, false), Err(MergerError::Nothing)));
    assert!(matches!(merger.merge_positions(5, false), Ok(MergeStep::Merge)));
    assert!(matches!(
        merger.merge_positions(5, true),
        Ok(MergeStep::Approve(_))
    ));
    merger.approval_confirmed();
    assert!(matches!(merger.merge_positions(5, true), Ok(MergeStep::Merge)));
    let call = merger.merge_call(CONDITION, 5, true).unwrap();
    assert_eq!(call.to, MergeVenue::NegRisk.merge_target());
    assert_eq!(MergeVenue::from_neg_risk(false), MergeVenue::Standard);
}

#[test]
fn submissions_carry_the_signature() {
    let merger = merger();
    let call = merger.merge_call(CONDITION, 5, false).unwrap();
    let request = merger.submit_safe_transaction(&call, 3).expect("a request");
    assert_eq!(request.nonce, "3");
    assert_eq!(request.tx_type, "SAFE");
    assert_eq!(request.proxy_wallet, SAFE);
    assert!(request.data.starts_with("0x9e7212ad"));
    assert_eq!(request.signature.len(), 132);
    assert!(merger.nonce_path().contains(SIGNER));
    assert!(merger.deployed_path().contains(SAFE));
    let (url, headers) = merger.build_request("/submit", true);
    assert_eq!(url, "https://relayer-v2.polymarket.com/submit");
    assert_eq!(headers.len(), 2);
    assert!(merger.validate_relayer_auth(&vec![SIGNER.to_string()]).is_ok());
    assert!(merger.validate_relayer_auth(&vec![SAFE.to_string()]).is_err());
    assert!(merger.ensure_safe_deployed(true).is_ok());
    assert!(merger.ensure_safe_deployed(false).is_err());
}

#[test]
fn states_are_success_or_failure_but_never_both() {
    for state in ["STATE_CONFIRMED", "STATE_MINED", "STATE_FAILED", "STATE_INVALID", "STATE_NEW"] {
        assert!(!(relayer_state_is_success(state) && relayer_state_is_failure(state)));
    }
    assert!(relayer_state_is_success("STATE_CONFIRMED"));
    assert!(relayer_state_is_failure("STATE_FAILED"));
}

#[test]
fn first_answers_may_end_a_transaction() {
    assert!(matches!(
        submitted("merge", &status("STATE_CONFIRMED", "0xabc")),
        SubmitStep::Done(_)
    ));
    assert!(matches!(
        submitted("merge", &status("STATE_CONFIRMED", "")),
        SubmitStep::Wait
    ));
    match submitted("merge", &status("STATE_FAILED", "")) {
        SubmitStep::Failed(why) => {
            assert!(why.contains("failed immediately: state=STATE_FAILED tx_id=tx-1"));
            assert!(!terminal_hash("merge", &status("STATE_CONFIRMED", ""))
                .unwrap_err()
                .is_empty());
        }
        other => panic!("unexpected: {other:?}"),
    }
}

#[test]
fn waiting_for_a_transaction_ends() {
    let mut wait = TransactionWait::new();
    let pending = || Lookup::Found(status("STATE_EXECUTED", ""));
    for _ in 1..RELAYER_MAX_POLLS {
        assert!(matches!(
            wait.wait_for_terminal_transaction("merge", "tx-1", pending()),
            PollStep::Again
        ));
    }
    match wait.wait_for_terminal_transaction("merge", "tx-1", pending()) {
        PollStep::Failed(why) => assert_eq!(
            why,
            "relayer merge did not reach a terminal state within 60 seconds (last_state=STATE_EXECUTED tx_id=tx-1)"
        ),
        other => panic!("unexpected: {other:?}"),
    }
    let mut wait = TransactionWait::new();
    assert!(matches!(
        wait.wait_for_terminal_transaction("merge", "tx-1", Lookup::Missing),
        PollStep::Failed(_)
    ));
    let mut wait = TransactionWait::new();
    let found = Lookup::Found(status("STATE_CONFIRMED", "0xabc"));
    assert!(matches!(
        wait.wait_for_terminal_transaction("merge", "tx-1", found),
        PollStep::Done(_)
    ));
}

#[test]
fn failed_transactions_are_sent_again_twice() {
    let mut wait = TransactionWait::new();
    let found = Lookup::Found(status("STATE_FAILED", "0xabc"));
    let why = match wait.wait_for_terminal_transaction("merge", "tx-1", found) {
        PollStep::Failed(why) => why,
        other => panic!("unexpected: {other:?}"),
    };
    assert!(safe_transaction_error_is_retryable_terminal_failure(&why));
    assert!(sends_again(0, &why));
    assert!(sends_again(1, &why));
    assert!(!sends_again(2, &why));
    assert!(tries_again(1, true));
    assert!(!tries_again(3, true));
    assert!(!tries_again(1, false));
}

#[test]
fn answers_are_shortened_to_one_line() {
    assert_eq!(truncate_response_body("a\n  b"), "a b");
    assert!(truncate_response_body(&"x".repeat(5000)).len() < 1000);
    assert!(relayer_http_status_is_retryable(503));
    assert!(!relayer_http_status_is_retryable(400));
    let refused = request_refused("submit", 503, "503 Service Unavailable", "busy");
    assert!(refused.retryable);
    assert!(refused.message.contains("busy"));
}

#[test]
fn nonces_are_counts() {
    assert_eq!(parse_safe_nonce("12"), Ok(12));
    assert!(parse_safe_nonce("-1").is_err());
    assert!(parse_safe_nonce("").is_err());
}
