use block_witness::codec::parse_account_state;
use block_witness::codec::serialize_account_state;
use block_witness::codec::serialize_witness;
use block_witness::AccountProof;
use block_witness::AccountState;
use block_witness::Block;
use block_witness::BlockWitness;
use block_witness::Transaction;
use block_witness::TransactionOrHash;
use block_witness::TransactionReceipt;

fn sample() -> AccountState {
    AccountState {
        balance_before: "0x10".to_string(),
        balance_after: "0x20".to_string(),
        nonce_before: "0x0".to_string(),
        nonce_after: "0x1".to_string(),
        code: "0x6001".to_string(),
    }
}

#[test]
fn serializes_exact_json() {
    let text = serialize_account_state(&sample());
    assert_eq!(
        text,
        "{\"balance_before\":\"0x10\",\"balance_after\":\"0x20\",\
         \"nonce_before\":\"0x0\",\"nonce_after\":\"0x1\",\"code\":\"0x6001\"}"
    );
}

#[test]
fn account_state_round_trip() {
    let st = sample();
    let text = serialize_account_state(&st);
    assert_eq!(parse_account_state(&text), Some(st));
}

#[test]
fn empty_fields_round_trip() {
    let st = AccountState {
        balance_before: String::new(),
        balance_after: String::new(),
        nonce_before: String::new(),
        nonce_after: String::new(),
        code: String::new(),
    };
    let text = serialize_account_state(&st);
    assert_eq!(parse_account_state(&text), Some(st));
}

#[test]
fn quotes_and_backslashes_round_trip() {
    let st = AccountState {
        balance_before: "a\"b".to_string(),
        balance_after: "c\\d".to_string(),
        nonce_before: "\\".to_string(),
        nonce_after: "\"".to_string(),
        code: "\\\"".to_string(),
    };
    let text = serialize_account_state(&st);
    assert!(text.contains("a\\\"b"));
    assert!(text.contains("c\\\\d"));
    assert_eq!(parse_account_state(&text), Some(st));
}

#[test]
fn rejects_trailing_text() {
    let mut text = serialize_account_state(&sample());
    text.push(' ');
    assert_eq!(parse_account_state(&text), None);
}

#[test]
fn rejects_missing_field() {
    assert_eq!(parse_account_state("{\"balance_before\":\"0x1\"}"), None);
    assert_eq!(parse_account_state(""), None);
}

#[test]
fn rejects_unterminated_string() {
    assert_eq!(parse_account_state("{\"balance_before\":\"0x1"), None);
}

#[test]
fn witness_with_empty_maps_serializes_exactly() {
    let w = BlockWitness {
        block_header: Block {
            number: "0x10".to_string(),
            hash: "0xb".to_string(),
            parentHash: "0xa".to_string(),
            stateRoot: "0xr".to_string(),
            transactions: Vec::new(),
        },
        prev_block_header: Block {
            number: "0xf".to_string(),
            hash: "0xa".to_string(),
            parentHash: "0x9".to_string(),
            stateRoot: "0xq".to_string(),
            transactions: Vec::new(),
        },
        transactions: Vec::new(),
        receipts: Vec::new(),
        pre_state: Vec::new(),
        post_state: Vec::new(),
        merkle_proofs: Vec::new(),
    };
    let text = serialize_witness(&w);
    assert_eq!(
        text,
        "{\"block_header\":{\"number\":\"0x10\",\"hash\":\"0xb\",\"parentHash\":\"0xa\",\
         \"stateRoot\":\"0xr\",\"transactions\":[]},\
         \"prev_block_header\":{\"number\":\"0xf\",\"hash\":\"0xa\",\"parentHash\":\"0x9\",\
         \"stateRoot\":\"0xq\",\"transactions\":[]},\
         \"transactions\":[],\"receipts\":[],\"pre_state\":{},\"post_state\":{},\
         \"merkle_proofs\":{}}"
    );
}

#[test]
fn witness_document_is_valid_json_with_exact_field_names() {
    let tx = Transaction {
        hash: "0x01".to_string(),
        from: "0xaa".to_string(),
        to: None,
        input: "0x".to_string(),
    };
    let w = BlockWitness {
        block_header: Block {
            number: "0x10".to_string(),
            hash: "0xb".to_string(),
            parentHash: "0xa".to_string(),
            stateRoot: "0xr".to_string(),
            transactions: vec![TransactionOrHash::Full(tx.clone())],
        },
        prev_block_header: Block {
            number: "0xf".to_string(),
            hash: "0xa".to_string(),
            parentHash: "0x9".to_string(),
            stateRoot: "0xq".to_string(),
            transactions: Vec::new(),
        },
        transactions: vec![tx],
        receipts: vec![TransactionReceipt {
            transactionHash: "0x01".to_string(),
            gasUsed: "0x5208".to_string(),
            status: "0x1".to_string(),
            logs: vec!["{\"data\":\"0x\"}".to_string()],
        }],
        pre_state: vec![("0xaa".to_string(), AccountState {
            balance_before: "0x1".to_string(),
            balance_after: "0x2".to_string(),
            nonce_before: "0x0".to_string(),
            nonce_after: "0x1".to_string(),
            code: "0x".to_string(),
        })],
        post_state: vec![("0xaa".to_string(), AccountState {
            balance_before: "0x1".to_string(),
            balance_after: "0x2".to_string(),
            nonce_before: "0x0".to_string(),
            nonce_after: "0x1".to_string(),
            code: "0x".to_string(),
        })],
        merkle_proofs: vec![("0xaa".to_string(), (
            AccountProof {
                address: "0xaa".to_string(),
                balance: "0x1".to_string(),
                nonce: "0x0".to_string(),
                codeHash: "0xc".to_string(),
                storageHash: "0x5".to_string(),
                accountProof: vec!["0xn1".to_string()],
                storageProof: Vec::new(),
            },
            AccountProof {
                address: "0xaa".to_string(),
                balance: "0x2".to_string(),
                nonce: "0x1".to_string(),
                codeHash: "0xc".to_string(),
                storageHash: "0x6".to_string(),
                accountProof: vec!["0xn2".to_string()],
                storageProof: Vec::new(),
            },
        ))],
    };
    let text = serialize_witness(&w);
    let parsed: serde_json::Value = serde_json::from_str(&text).expect("valid JSON");
    assert_eq!(parsed["block_header"]["number"], "0x10");
    assert_eq!(parsed["prev_block_header"]["number"], "0xf");
    assert_eq!(parsed["transactions"][0]["hash"], "0x01");
    assert_eq!(parsed["transactions"][0]["to"], serde_json::Value::Null);
    assert_eq!(parsed["receipts"][0]["transactionHash"], "0x01");
    assert_eq!(parsed["receipts"][0]["logs"][0]["data"], "0x");
    assert_eq!(parsed["pre_state"]["0xaa"]["balance_before"], "0x1");
    assert_eq!(parsed["post_state"]["0xaa"]["balance_after"], "0x2");
    assert_eq!(parsed["merkle_proofs"]["0xaa"][0]["storageHash"], "0x5");
    assert_eq!(parsed["merkle_proofs"]["0xaa"][1]["storageHash"], "0x6");
}
