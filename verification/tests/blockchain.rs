use dtrex::puzzles::{
    compile_puzzle, generate_contract_puzzle_hash, generate_puzzle_reveal,
    validate_puzzle_conditions,
};
use dtrex::signing::{aggregate_signatures, verify_bls_signature};
use dtrex::spend::{build_contract_spend_bundle, simulate_spend, validate_spend_bundle, Coin, SpendBundle};

#[test]
fn test_build_spend_bundle() {
    let coin = Coin {
        parent_coin_id: "0x123".to_string(),
        puzzle_hash: "0xabc".to_string(),
        amount: 1000,
    };

    let result = build_contract_spend_bundle(
        coin,
        "puzzle".to_string(),
        "solution".to_string(),
        vec!["sig1".to_string()],
    );

    assert!(result.is_ok());
}

#[test]
fn test_validate_empty_spend_bundle() {
    let bundle = SpendBundle {
        coin_spends: vec![],
        aggregated_signature: "sig".to_string(),
    };

    let result = validate_spend_bundle(&bundle);
    assert!(result.is_err());
}

#[test]
fn test_generate_puzzle_hash() {
    let participants = vec!["0xpubkey1".to_string(), "0xpubkey2".to_string()];
    let terms_hash = "abc123";
    let required_sigs = 2;

    let result = generate_contract_puzzle_hash(&participants, terms_hash, required_sigs);
    assert!(result.is_ok());

    let hash = result.unwrap();
    assert_eq!(hash.len(), 64); // SHA256 hex length
}

#[test]
fn test_deterministic_puzzle_hash() {
    let participants = vec!["0xpubkey1".to_string()];
    let terms_hash = "test";

    let hash1 = generate_contract_puzzle_hash(&participants, terms_hash, 1).unwrap();
    let hash2 = generate_contract_puzzle_hash(&participants, terms_hash, 1).unwrap();

    assert_eq!(hash1, hash2);
}

#[test]
fn bundle_holds_the_coin_and_first_signature() {
    let coin = Coin {
        parent_coin_id: "0x123".to_string(),
        puzzle_hash: "0xabc".to_string(),
        amount: 1000,
    };
    let b = build_contract_spend_bundle(
        coin,
        "puzzle".to_string(),
        "solution".to_string(),
        vec!["sig1".to_string(), "sig2".to_string()],
    )
    .unwrap();
    assert_eq!(b.coin_spends.len(), 1);
    assert_eq!(b.coin_spends[0].coin.amount, 1000);
    assert_eq!(b.aggregated_signature, "sig1".to_string());
    assert_eq!(validate_spend_bundle(&b), Ok(true));
    let sim = simulate_spend(&b).unwrap();
    assert!(sim.success);
    assert_eq!(sim.cost, 1000000);
}

#[test]
fn bundle_without_signatures_is_refused() {
    let coin = Coin {
        parent_coin_id: "0x123".to_string(),
        puzzle_hash: "0xabc".to_string(),
        amount: 1,
    };
    let r = build_contract_spend_bundle(coin, "p".to_string(), "s".to_string(), vec![]);
    assert_eq!(r.err(), Some("No signatures provided".to_string()));
}

#[test]
fn empty_aggregated_signature_is_refused() {
    let coin = Coin {
        parent_coin_id: "0x123".to_string(),
        puzzle_hash: "0xabc".to_string(),
        amount: 1,
    };
    let b = SpendBundle {
        coin_spends: vec![dtrex::spend::CoinSpend {
            coin,
            puzzle_reveal: "p".to_string(),
            solution: "s".to_string(),
        }],
        aggregated_signature: String::new(),
    };
    assert_eq!(
        validate_spend_bundle(&b).err(),
        Some("Spend bundle must have an aggregated signature".to_string())
    );
}

#[test]
fn puzzle_reveal_wraps_the_hash() {
    assert_eq!(generate_puzzle_reveal("cafe"), "(puzzle_reveal cafe)".to_string());
}

#[test]
fn compile_and_validate_placeholders_answer_fixedly() {
    let participants = vec!["0xpubkey1".to_string()];
    assert_eq!(compile_puzzle("tmpl", &participants, "h"), Ok(vec![1, 2, 3, 4]));
    assert_eq!(validate_puzzle_conditions(&[1, 2], &[3]), Ok(true));
    assert_eq!(verify_bls_signature(b"msg", "sig", "key"), Ok(true));
}

#[test]
fn aggregate_signatures_renders_the_zero_signature() {
    let r = aggregate_signatures(vec!["sig1".to_string()]).unwrap();
    let mut expected = String::from("0x");
    for _ in 0..96 {
        expected.push_str("00");
    }
    assert_eq!(r, expected);
}

#[test]
fn distinct_inputs_change_the_puzzle_hash() {
    let participants = vec!["0xpubkey1".to_string()];
    let h1 = generate_contract_puzzle_hash(&participants, "test", 1).unwrap();
    let h2 = generate_contract_puzzle_hash(&participants, "test", 2).unwrap();
    assert_ne!(h1, h2);
}
