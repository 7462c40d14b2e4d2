use madara_sync::felt::Felt;
use madara_sync::header::{GasPrices, Header, L1DataAvailabilityMode, StarknetVersion};
use madara_sync::import::{
    BlockImportError, BlockImporter, BlockValidationConfig, ClassInfo, ClassInfoWithHash, ClassType, ConvertedClass,
    DeclaredClassCompiledClass,
};

fn felt(n: u64) -> Felt {
    Felt::from_u64(n)
}

fn felt_hex(hex: &str) -> Felt {
    let digits = hex.trim_start_matches("0x");
    let padded = format!("{:0>64}", digits);
    let mut bytes = [0u8; 32];
    for i in 0..32 {
        bytes[i] = u8::from_str_radix(&padded[2 * i..2 * i + 2], 16).unwrap();
    }
    Felt::from_bytes_be(bytes).unwrap()
}

fn header(block_number: u64, root: Felt) -> Header {
    Header {
        parent_block_hash: felt(0),
        block_number,
        global_state_root: root,
        sequencer_address: felt(0),
        block_timestamp: 0,
        transaction_count: 2,
        transaction_commitment: felt(11),
        event_count: 3,
        event_commitment: felt(12),
        state_diff_length: Some(4),
        state_diff_commitment: Some(felt(13)),
        receipt_commitment: Some(felt(14)),
        protocol_version: StarknetVersion::new(0, 13, 2, 0),
        l1_gas_price: GasPrices {
            eth_l1_gas_price: 0,
            strk_l1_gas_price: 0,
            eth_l1_data_gas_price: 0,
            strk_l1_data_gas_price: 0,
        },
        l1_da_mode: L1DataAvailabilityMode::Calldata,
    }
}

fn importer() -> BlockImporter {
    BlockImporter::new(BlockValidationConfig::default())
}

#[test]
fn test_update_tries() {
    // A non-zero global state root that the trie produced for the state diff.
    let root = felt_hex("0x738e796f750b21ddb3ce528ca88f7e35fad580768bd58571995b19a6809bb4a");
    let h = header(0, root);
    assert_eq!(importer().apply_to_global_trie(0, 1, root, Some(&h)), Ok(()));

    // A non-zero header root, while the empty state diff leaves the trie at zero.
    let h = header(0, felt_hex("0xb"));
    assert_eq!(
        importer().apply_to_global_trie(0, 1, felt_hex("0x0"), Some(&h)),
        Err(BlockImportError::GlobalStateRoot { expected: felt_hex("0xb"), got: felt_hex("0x0") })
    );

    // A zero header root and an empty state diff.
    let h = header(0, felt_hex("0x0"));
    assert_eq!(importer().apply_to_global_trie(0, 1, felt_hex("0x0"), Some(&h)), Ok(()));
}

#[test]
fn state_root_check_of_an_empty_range_passes() {
    assert_eq!(importer().apply_to_global_trie(3, 3, felt(1), None), Ok(()));
}

#[test]
fn state_root_check_without_header_is_internal() {
    let r = importer().apply_to_global_trie(0, 2, felt(1), None);
    assert!(matches!(r, Err(BlockImportError::Internal(_))));
    assert!(r.unwrap_err().is_internal());
}

#[test]
fn state_root_mismatch_passes_without_checks() {
    let imp = BlockImporter::new(BlockValidationConfig::default().all_verifications_disabled(true));
    let h = header(0, felt(0xb));
    assert_eq!(imp.apply_to_global_trie(0, 1, felt(0), Some(&h)), Ok(()));
}

#[test]
fn validation_config_builders() {
    let c = BlockValidationConfig::default();
    assert!(!c.trust_class_hashes && !c.trust_parent_hash && !c.no_check);
    let c = c.trust_parent_hash(true);
    assert!(c.trust_parent_hash && !c.no_check);
    let c = c.all_verifications_disabled(true);
    assert!(c.trust_parent_hash && c.no_check);
    assert!(BlockImporter::new(c).is_trust_parent_hash());
}

#[test]
fn verify_header_block_number() {
    let h = header(5, felt(0));
    assert_eq!(importer().verify_header(5, &h), Ok(()));
    assert_eq!(importer().verify_header(6, &h), Err(BlockImportError::BlockNumber { expected: 6, got: 5 }));
}

#[test]
fn verify_transactions_cases() {
    let h = header(1, felt(0));
    assert_eq!(importer().verify_transactions(1, 2, felt(11), felt(14), &h, false), Ok((felt(11), felt(14))));
    assert_eq!(
        importer().verify_transactions(1, 3, felt(11), felt(14), &h, false),
        Err(BlockImportError::TransactionCount { got: 3, expected: 2 })
    );
    assert_eq!(
        importer().verify_transactions(1, 2, felt(99), felt(14), &h, false),
        Err(BlockImportError::TransactionCommitment { got: felt(99), expected: felt(11) })
    );
    assert_eq!(
        importer().verify_transactions(1, 2, felt(11), felt(98), &h, false),
        Err(BlockImportError::ReceiptCommitment { got: felt(98), expected: felt(14) })
    );
}

#[test]
fn verify_transactions_tolerates_old_blocks_when_allowed() {
    let mut h = header(1, felt(0));
    h.protocol_version = StarknetVersion::new(0, 13, 1, 1);
    assert_eq!(importer().verify_transactions(1, 2, felt(99), felt(98), &h, true), Ok((felt(99), felt(98))));
    assert!(importer().verify_transactions(1, 2, felt(99), felt(98), &h, false).is_err());
    // The count is checked all the same.
    assert!(importer().verify_transactions(1, 1, felt(99), felt(98), &h, true).is_err());
}

#[test]
fn verify_events_cases() {
    let h = header(1, felt(0));
    assert_eq!(importer().verify_events(1, 3, felt(12), &h, false), Ok(felt(12)));
    assert_eq!(importer().verify_events(1, 4, felt(12), &h, false), Err(BlockImportError::EventCount { got: 4, expected: 3 }));
    assert_eq!(
        importer().verify_events(1, 3, felt(1), &h, false),
        Err(BlockImportError::EventCommitment { got: felt(1), expected: felt(12) })
    );
}

#[test]
fn verify_state_diff_cases() {
    let h = header(1, felt(0));
    assert_eq!(importer().verify_state_diff(1, 4, felt(13), &h, false), Ok(felt(13)));
    assert_eq!(
        importer().verify_state_diff(1, 5, felt(13), &h, false),
        Err(BlockImportError::StateDiffLength { got: 5, expected: 4 })
    );
    assert_eq!(
        importer().verify_state_diff(1, 4, felt(2), &h, false),
        Err(BlockImportError::StateDiffCommitment { got: felt(2), expected: felt(13) })
    );
    let mut bare = header(1, felt(0));
    bare.state_diff_length = None;
    bare.state_diff_commitment = None;
    assert_eq!(importer().verify_state_diff(1, 0, felt(0), &bare, false), Ok(felt(0)));
}

fn sierra(hash: u64, declared: u64, computed: Result<u64, &str>, compiled: Result<u64, &str>) -> ClassInfoWithHash {
    ClassInfoWithHash {
        class_hash: felt(hash),
        class_info: ClassInfo::Sierra {
            compiled_class_hash: felt(declared),
            computed_class_hash: computed.map(felt).map_err(|e| e.to_string()),
            compiled: compiled.map(felt).map_err(|e| e.to_string()),
        },
    }
}

fn legacy(hash: u64, computed: Result<u64, &str>) -> ClassInfoWithHash {
    ClassInfoWithHash {
        class_hash: felt(hash),
        class_info: ClassInfo::Legacy { computed_class_hash: computed.map(felt).map_err(|e| e.to_string()) },
    }
}

#[test]
fn verify_compile_classes_converts_valid_classes() {
    let against = vec![(felt(1), DeclaredClassCompiledClass::Sierra(felt(100))), (felt(2), DeclaredClassCompiledClass::Legacy)];
    let classes = vec![sierra(1, 100, Ok(1), Ok(100)), legacy(2, Ok(2))];
    assert_eq!(
        importer().verify_compile_classes(&classes, &against),
        Ok(vec![
            ConvertedClass::Sierra { class_hash: felt(1), compiled_class_hash: felt(100) },
            ConvertedClass::Legacy { class_hash: felt(2) }
        ])
    );
}

#[test]
fn verify_compile_classes_errors() {
    let against = vec![(felt(1), DeclaredClassCompiledClass::Sierra(felt(100)))];
    let imp = importer();
    assert_eq!(
        imp.verify_compile_classes(&vec![], &against),
        Err(BlockImportError::ClassCount { got: 0, expected: 1 })
    );
    assert_eq!(
        imp.verify_compile_classes(&vec![sierra(7, 100, Ok(7), Ok(100))], &against),
        Err(BlockImportError::UnexpectedClass { class_hash: felt(7) })
    );
    assert_eq!(
        imp.verify_compile_classes(&vec![sierra(1, 101, Ok(1), Ok(101))], &against),
        Err(BlockImportError::CompiledClassHash { class_hash: felt(1), got: felt(101), expected: felt(100) })
    );
    assert_eq!(
        imp.verify_compile_classes(&vec![sierra(1, 100, Ok(9), Ok(100))], &against),
        Err(BlockImportError::ClassHash { got: felt(1), expected: felt(9) })
    );
    assert_eq!(
        imp.verify_compile_classes(&vec![sierra(1, 100, Err("bad class"), Ok(100))], &against),
        Err(BlockImportError::ComputeClassHash { class_hash: felt(1), error: "bad class".to_string() })
    );
    assert_eq!(
        imp.verify_compile_classes(&vec![sierra(1, 100, Ok(1), Err("no casm"))], &against),
        Err(BlockImportError::CompilationClassError { class_hash: felt(1), error: "no casm".to_string() })
    );
    assert_eq!(
        imp.verify_compile_classes(&vec![sierra(1, 100, Ok(1), Ok(55))], &against),
        Err(BlockImportError::CompiledClassHash { class_hash: felt(1), got: felt(100), expected: felt(55) })
    );
    assert_eq!(
        imp.verify_compile_classes(&vec![legacy(1, Ok(1))], &against),
        Err(BlockImportError::ClassType { class_hash: felt(1), got: ClassType::Sierra, expected: ClassType::Legacy })
    );
    let legacy_against = vec![(felt(1), DeclaredClassCompiledClass::Legacy)];
    assert_eq!(
        imp.verify_compile_classes(&vec![sierra(1, 100, Ok(1), Ok(100))], &legacy_against),
        Err(BlockImportError::ClassType { class_hash: felt(1), got: ClassType::Legacy, expected: ClassType::Sierra })
    );
    assert_eq!(
        imp.verify_compile_classes(&vec![legacy(1, Ok(3))], &legacy_against),
        Err(BlockImportError::ClassHash { got: felt(1), expected: felt(3) })
    );
}

#[test]
fn verify_compile_classes_trusting_class_hashes() {
    let imp = BlockImporter::new(BlockValidationConfig { trust_class_hashes: true, trust_parent_hash: false, no_check: false });
    let against = vec![(felt(1), DeclaredClassCompiledClass::Legacy)];
    assert_eq!(
        imp.verify_compile_classes(&vec![legacy(1, Err("unused"))], &against),
        Ok(vec![ConvertedClass::Legacy { class_hash: felt(1) }])
    );
}

#[test]
fn internal_errors() {
    assert!(BlockImportError::InternalDb { context: "storing".to_string(), error: "io".to_string() }.is_internal());
    assert!(!BlockImportError::BlockNumber { got: 1, expected: 2 }.is_internal());
}
