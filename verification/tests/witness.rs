use block_witness::assembler::assemble;
use block_witness::assembler::extraction_plan;
use block_witness::collector::collect_addresses;
use block_witness::collector::full_transactions;
use block_witness::collector::normalize_address;
use block_witness::heights::format_height;
use block_witness::heights::parse_height;
use block_witness::heights::previous_height;
use block_witness::rpc::account_state_from_batch;
use block_witness::rpc::at_height;
use block_witness::rpc::require_result;
use block_witness::AccountProof;
use block_witness::AccountState;
use block_witness::Block;
use block_witness::RpcOutcome;
use block_witness::Transaction;
use block_witness::TransactionOrHash;
use block_witness::TransactionReceipt;
use block_witness::WitnessError;

fn tx(hash: &str, from: &str, to: Option<&str>) -> Transaction {
    Transaction {
        hash: hash.to_string(),
        from: from.to_string(),
        to: to.map(|s| s.to_string()),
        input: "0x".to_string(),
    }
}

fn receipt(hash: &str) -> TransactionReceipt {
    TransactionReceipt {
        transactionHash: hash.to_string(),
        gasUsed: "0x5208".to_string(),
        status: "0x1".to_string(),
        logs: Vec::new(),
    }
}

fn state(tag: &str) -> AccountState {
    AccountState {
        balance_before: format!("0x{tag}1"),
        balance_after: format!("0x{tag}2"),
        nonce_before: "0x0".to_string(),
        nonce_after: "0x1".to_string(),
        code: "0x".to_string(),
    }
}

fn sample_proof(addr: &str) -> AccountProof {
    AccountProof {
        address: addr.to_string(),
        balance: "0x0".to_string(),
        nonce: "0x0".to_string(),
        codeHash: "0xc0de".to_string(),
        storageHash: "0x57".to_string(),
        accountProof: vec!["0xnode".to_string()],
        storageProof: Vec::new(),
    }
}

fn block(number: &str, slots: Vec<TransactionOrHash>) -> Block {
    Block {
        number: number.to_string(),
        hash: "0xb10c".to_string(),
        parentHash: "0xdad".to_string(),
        stateRoot: "0x5407".to_string(),
        transactions: slots,
    }
}

fn scenario_inputs() -> (Block, Block, Vec<TransactionReceipt>, Vec<AccountState>, Vec<(AccountProof, AccountProof)>) {
    let curr = block(
        "0x10",
        vec![
            TransactionOrHash::Full(tx("0x01", "0xAA", Some("0xBB"))),
            TransactionOrHash::Full(tx("0x02", "0xBB", None)),
        ],
    );
    let prev = block("0xf", Vec::new());
    let receipts = vec![receipt("0x01"), receipt("0x02")];
    let states = vec![state("a"), state("b")];
    let proofs = vec![
        (sample_proof("0xaa"), sample_proof("0xaa")),
        (sample_proof("0xbb"), sample_proof("0xbb")),
    ];
    (curr, prev, receipts, states, proofs)
}

#[test]
fn parse_height_prefixed_hex() {
    assert_eq!(parse_height("0x10"), Ok(16));
}

#[test]
fn parse_height_bare_hex() {
    assert_eq!(parse_height("10"), Ok(16));
    assert_eq!(parse_height("ff"), Ok(255));
}

#[test]
fn parse_height_uppercase_digits() {
    assert_eq!(parse_height("0xFF"), Ok(255));
}

#[test]
fn parse_height_zero() {
    assert_eq!(parse_height("0x0"), Ok(0));
}

#[test]
fn parse_height_max() {
    assert_eq!(parse_height("0xffffffffffffffff"), Ok(u64::MAX));
}

#[test]
fn parse_height_rejects_empty_digits() {
    assert!(parse_height("0x").is_err());
    assert!(parse_height("").is_err());
}

#[test]
fn parse_height_rejects_non_hex() {
    match parse_height("latest") {
        Err(WitnessError::DecodeError { context }) => {
            assert_eq!(context, "invalid block height latest");
        }
        other => panic!("expected a decode error, got {other:?}"),
    }
}

#[test]
fn parse_height_rejects_overflow() {
    assert!(parse_height("0x10000000000000000").is_err());
}

#[test]
fn format_height_canonical() {
    assert_eq!(format_height(0), "0x0");
    assert_eq!(format_height(15), "0xf");
    assert_eq!(format_height(16), "0x10");
    assert_eq!(format_height(255), "0xff");
}

#[test]
fn height_round_trip() {
    for h in [0u64, 1, 15, 16, 12345, u64::MAX] {
        assert_eq!(parse_height(&format_height(h)), Ok(h));
    }
}

#[test]
fn previous_height_decrements() {
    assert_eq!(previous_height(16), Ok(15));
    assert_eq!(previous_height(0), Err(WitnessError::GenesisBoundaryError));
}

#[test]
fn normalize_lowercases() {
    assert_eq!(normalize_address("0xABcD9F"), "0xabcd9f");
    assert_eq!(normalize_address("0xabc"), "0xabc");
}

#[test]
fn collects_senders_and_recipients() {
    let b = block(
        "0x10",
        vec![
            TransactionOrHash::Full(tx("0x01", "0xAA", Some("0xBB"))),
            TransactionOrHash::Full(tx("0x02", "0xBB", None)),
        ],
    );
    let addrs = collect_addresses(&b);
    assert_eq!(addrs, vec!["0xaa".to_string(), "0xbb".to_string()]);
}

#[test]
fn collects_mixed_case_once() {
    let b = block(
        "0x10",
        vec![TransactionOrHash::Full(tx("0x01", "0xAA", Some("0xaa")))],
    );
    assert_eq!(collect_addresses(&b), vec!["0xaa".to_string()]);
}

#[test]
fn hash_only_block_yields_no_addresses() {
    let b = block(
        "0x10",
        vec![
            TransactionOrHash::Hash("0x01".to_string()),
            TransactionOrHash::Hash("0x02".to_string()),
        ],
    );
    assert!(collect_addresses(&b).is_empty());
    assert!(full_transactions(&b).is_empty());
}

#[test]
fn plan_for_scenario_block() {
    let (curr, _, _, _, _) = scenario_inputs();
    let plan = extraction_plan(&curr).unwrap();
    assert_eq!(plan.curr_height, 16);
    assert_eq!(plan.prev_height, 15);
    assert_eq!(plan.prev_height_tag, "0xf");
    assert_eq!(plan.addresses, vec!["0xaa".to_string(), "0xbb".to_string()]);
    assert_eq!(plan.receipt_hashes, vec!["0x01".to_string(), "0x02".to_string()]);
}

#[test]
fn plan_fails_fast_at_genesis() {
    let genesis = block("0x0", Vec::new());
    assert_eq!(
        extraction_plan(&genesis).unwrap_err(),
        WitnessError::GenesisBoundaryError
    );
}

#[test]
fn assemble_scenario_block() {
    let (curr, prev, receipts, states, proofs) = scenario_inputs();
    let w = assemble(curr, prev, receipts, states, proofs).unwrap();
    assert_eq!(w.block_header.number, "0x10");
    assert_eq!(w.prev_block_header.number, "0xf");
    assert_eq!(w.transactions.len(), 2);
    assert_eq!(w.receipts.len(), 2);
    assert_eq!(w.pre_state.len(), 2);
    assert_eq!(w.post_state.len(), 2);
    assert_eq!(w.merkle_proofs.len(), 2);
    let keys: Vec<&str> = w.pre_state.iter().map(|p| p.0.as_str()).collect();
    assert_eq!(keys, vec!["0xaa", "0xbb"]);
    let post_keys: Vec<&str> = w.post_state.iter().map(|p| p.0.as_str()).collect();
    assert_eq!(post_keys, keys);
    let proof_keys: Vec<&str> = w.merkle_proofs.iter().map(|p| p.0.as_str()).collect();
    assert_eq!(proof_keys, keys);
    assert_eq!(w.pre_state[0].1, w.post_state[0].1);
    assert_eq!(w.receipts[0].transactionHash, w.transactions[0].hash);
    assert_eq!(w.receipts[1].transactionHash, w.transactions[1].hash);
}

#[test]
fn assemble_is_idempotent() {
    let (c1, p1, r1, s1, f1) = scenario_inputs();
    let (c2, p2, r2, s2, f2) = scenario_inputs();
    let w1 = assemble(c1, p1, r1, s1, f1).unwrap();
    let w2 = assemble(c2, p2, r2, s2, f2).unwrap();
    assert_eq!(w1, w2);
}

#[test]
fn assemble_fails_at_genesis() {
    let curr = block("0x0", Vec::new());
    let prev = block("0x0", Vec::new());
    assert_eq!(
        assemble(curr, prev, Vec::new(), Vec::new(), Vec::new()).unwrap_err(),
        WitnessError::GenesisBoundaryError
    );
}

#[test]
fn assemble_rejects_wrong_predecessor() {
    let (curr, _, receipts, states, proofs) = scenario_inputs();
    let wrong_prev = block("0xe", Vec::new());
    match assemble(curr, wrong_prev, receipts, states, proofs) {
        Err(WitnessError::DecodeError { context }) => {
            assert_eq!(context, "previous block 0xe does not precede 0x10");
        }
        other => panic!("expected a decode error, got {other:?}"),
    }
}

#[test]
fn assemble_rejects_unpaired_receipts() {
    let (curr, prev, _, states, proofs) = scenario_inputs();
    let wrong = vec![receipt("0x01"), receipt("0x09")];
    match assemble(curr, prev, wrong, states, proofs) {
        Err(WitnessError::DecodeError { context }) => {
            assert_eq!(context, "receipts do not pair with the block's transactions");
        }
        other => panic!("expected a decode error, got {other:?}"),
    }
}

#[test]
fn assemble_rejects_missing_receipt() {
    let (curr, prev, mut receipts, states, proofs) = scenario_inputs();
    receipts.pop();
    assert!(assemble(curr, prev, receipts, states, proofs).is_err());
}

#[test]
fn assemble_rejects_diverging_account_inputs() {
    let (curr, prev, receipts, mut states, proofs) = scenario_inputs();
    states.pop();
    assert_eq!(
        assemble(curr, prev, receipts, states, proofs).unwrap_err(),
        WitnessError::InconsistentSetError
    );
}

#[test]
fn assemble_rejects_bad_current_height() {
    let curr = block("nonsense", Vec::new());
    let prev = block("0xf", Vec::new());
    match assemble(curr, prev, Vec::new(), Vec::new(), Vec::new()) {
        Err(WitnessError::DecodeError { context }) => {
            assert_eq!(context, "invalid block height nonsense");
        }
        other => panic!("expected a decode error, got {other:?}"),
    }
}

#[test]
fn assemble_hash_only_block_gives_empty_maps() {
    let curr = block("0x10", vec![TransactionOrHash::Hash("0x01".to_string())]);
    let prev = block("0xf", Vec::new());
    let w = assemble(curr, prev, Vec::new(), Vec::new(), Vec::new()).unwrap();
    assert!(w.transactions.is_empty());
    assert!(w.receipts.is_empty());
    assert!(w.pre_state.is_empty());
    assert!(w.post_state.is_empty());
    assert!(w.merkle_proofs.is_empty());
}

#[test]
fn error_object_becomes_rpc_error_naming_address_and_height() {
    let target = at_height("0xaa", "0x10");
    let outcome: RpcOutcome<AccountProof> = RpcOutcome::ErrorObject("bad params".to_string());
    match require_result("eth_getProof", &target, outcome) {
        Err(WitnessError::RpcError { context }) => {
            assert_eq!(context, "eth_getProof for 0xaa at 0x10: bad params");
        }
        other => panic!("expected an rpc error, got {other:?}"),
    }
}

#[test]
fn null_result_becomes_not_found() {
    let outcome: RpcOutcome<String> = RpcOutcome::NullResult;
    match require_result("eth_getBlockByNumber", "0x999", outcome) {
        Err(WitnessError::NotFoundError { context }) => {
            assert_eq!(context, "eth_getBlockByNumber for 0x999: no result");
        }
        other => panic!("expected a not-found error, got {other:?}"),
    }
}

#[test]
fn malformed_result_becomes_decode_error() {
    let outcome: RpcOutcome<String> = RpcOutcome::Malformed("missing stateRoot".to_string());
    match require_result("eth_getBlockByNumber", "latest", outcome) {
        Err(WitnessError::DecodeError { context }) => {
            assert_eq!(context, "eth_getBlockByNumber for latest: missing stateRoot");
        }
        other => panic!("expected a decode error, got {other:?}"),
    }
}

#[test]
fn decoded_result_is_taken_unchanged() {
    let outcome = RpcOutcome::Decoded("0x5".to_string());
    assert_eq!(
        require_result("eth_getBalance", "0xaa at 0x10", outcome),
        Ok("0x5".to_string())
    );
}

#[test]
fn batch_maps_slots_to_fields() {
    let responses = vec![
        RpcOutcome::Decoded("0x1".to_string()),
        RpcOutcome::Decoded("0x2".to_string()),
        RpcOutcome::Decoded("0x3".to_string()),
        RpcOutcome::Decoded("0x4".to_string()),
        RpcOutcome::Decoded("0x5".to_string()),
    ];
    let st = account_state_from_batch("0xaa", "0xf", "0x10", responses).unwrap();
    assert_eq!(st.balance_before, "0x1");
    assert_eq!(st.balance_after, "0x2");
    assert_eq!(st.nonce_before, "0x3");
    assert_eq!(st.nonce_after, "0x4");
    assert_eq!(st.code, "0x5");
}

#[test]
fn batch_error_names_operation_and_height() {
    let responses = vec![
        RpcOutcome::Decoded("0x1".to_string()),
        RpcOutcome::Decoded("0x2".to_string()),
        RpcOutcome::ErrorObject("no such account".to_string()),
        RpcOutcome::Decoded("0x4".to_string()),
        RpcOutcome::Decoded("0x5".to_string()),
    ];
    match account_state_from_batch("0xaa", "0xf", "0x10", responses) {
        Err(WitnessError::RpcError { context }) => {
            assert_eq!(context, "eth_getTransactionCount for 0xaa at 0xf: no such account");
        }
        other => panic!("expected an rpc error, got {other:?}"),
    }
}

#[test]
fn batch_rejects_wrong_arity() {
    let responses = vec![RpcOutcome::Decoded("0x1".to_string())];
    match account_state_from_batch("0xaa", "0xf", "0x10", responses) {
        Err(WitnessError::DecodeError { context }) => {
            assert_eq!(context, "account state batch for 0xaa: expected five results");
        }
        other => panic!("expected a decode error, got {other:?}"),
    }
}

#[test]
fn batch_null_slot_is_not_a_zero_value() {
    let responses = vec![
        RpcOutcome::Decoded("0x1".to_string()),
        RpcOutcome::Decoded("0x2".to_string()),
        RpcOutcome::Decoded("0x3".to_string()),
        RpcOutcome::Decoded("0x4".to_string()),
        RpcOutcome::NullResult,
    ];
    match account_state_from_batch("0xaa", "0xf", "0x10", responses) {
        Err(WitnessError::NotFoundError { context }) => {
            assert_eq!(context, "eth_getCode for 0xaa at 0x10: no result");
        }
        other => panic!("expected a not-found error, got {other:?}"),
    }
}
