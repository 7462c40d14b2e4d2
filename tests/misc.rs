use madara_sync::commitments::{calculate_transaction_hash_with_signature, SIGNATURE_FROM_BLOCK};
use madara_sync::events::Event;
use madara_sync::felt::Felt;
use madara_sync::gateway::{
    verify_gateway_block, BlockCommitments, FromGatewayError, GatewayBlock, ProviderBlock, ProviderReceipt,
};
use madara_sync::header::{effective_version, GasPrices, L1DataAvailabilityMode, StarknetVersion};
use madara_sync::import::{BlockImportError, BlockImporter, BlockValidationConfig};
use madara_sync::jobs::{
    check_can_verify, create_job, job_processed, process_job, verify_job, get_u64_from_metadata, increment_key_in_metadata,
    verification_decision, JobError, JobStatus, JobVerificationStatus, VerifyAction, VerifyDecision,
    JOB_PROCESS_ATTEMPT_METADATA_KEY,
};
use madara_sync::settlement::{ClientType, DummyConfig};
use madara_sync::trie_db::{
    get_by_prefix, keys_to_remove_by_prefix, to_changed_key, BonsaiTransaction, Column, DatabaseKey,
    DatabaseKeyMapping,
};
use starknet_types_core::hash::{Pedersen, StarkHash};

fn felt(n: u64) -> Felt {
    Felt::from_u64(n)
}

fn stark(f: &Felt) -> starknet_types_core::felt::Felt {
    starknet_types_core::felt::Felt::from_bytes_be(&f.bytes)
}

#[test]
fn felt_from_u64_is_big_endian() {
    let f = felt(0x0102);
    assert_eq!(f.bytes[30], 1);
    assert_eq!(f.bytes[31], 2);
    assert!(f.bytes[..30].iter().all(|b| *b == 0));
    assert_eq!(stark(&f), starknet_types_core::felt::Felt::from(0x0102u64));
    let mut p = [0u8; 32];
    p[0] = 8;
    p[7] = 0x11;
    p[31] = 1;
    assert!(Felt::from_bytes_be(p).is_none());
    p[31] = 0;
    assert!(Felt::from_bytes_be(p).is_some());
}

#[test]
fn transaction_hash_with_signature_matches_pedersen() {
    let tx = felt(0xabc);
    let sig = vec![felt(1), felt(2)];
    let with_sig = calculate_transaction_hash_with_signature(&tx, &sig, false, SIGNATURE_FROM_BLOCK);
    let sig_hash = Pedersen::hash_array(&[stark(&sig[0]), stark(&sig[1])]);
    assert_eq!(stark(&with_sig), Pedersen::hash(&stark(&tx), &sig_hash));
    assert_ne!(with_sig, tx);

    let invoke = calculate_transaction_hash_with_signature(&tx, &sig, true, 0);
    assert_eq!(invoke, with_sig);

    let without = calculate_transaction_hash_with_signature(&tx, &sig, false, SIGNATURE_FROM_BLOCK - 1);
    assert_eq!(stark(&without), Pedersen::hash(&stark(&tx), &Pedersen::hash_array(&[])));
    assert_ne!(without, with_sig);
}

#[test]
fn version_text_parses() {
    assert_eq!(StarknetVersion::parse(b"0.13.2"), Some(StarknetVersion::new(0, 13, 2, 0)));
    assert_eq!(StarknetVersion::parse(b"0.13.1.1"), Some(StarknetVersion::new(0, 13, 1, 1)));
    assert_eq!(StarknetVersion::parse(b"0.13"), None);
    assert_eq!(StarknetVersion::parse(b"0.13.2.1.0"), None);
    assert_eq!(StarknetVersion::parse(b"0.256.0"), None);
    assert_eq!(StarknetVersion::parse(b"0..1"), None);
    assert_eq!(StarknetVersion::parse(b""), None);
}

#[test]
fn effective_version_is_at_least_v0_13_2() {
    assert_eq!(effective_version(&StarknetVersion::new(0, 12, 3, 0)), StarknetVersion::new(0, 13, 2, 0));
    assert_eq!(effective_version(&StarknetVersion::new(0, 13, 3, 0)), StarknetVersion::new(0, 13, 3, 0));
}

fn provider_block(n_receipts: usize, transaction_count: u64, version: Option<&str>) -> ProviderBlock {
    ProviderBlock {
        block_hash: felt(77),
        parent_block_hash: felt(76),
        block_number: 5,
        sequencer_address: None,
        timestamp: 1000,
        starknet_version: version.map(|v| v.as_bytes().to_vec()),
        mainnet_version: None,
        l1_gas_price: GasPrices { eth_l1_gas_price: 1, strk_l1_gas_price: 2, eth_l1_data_gas_price: 3, strk_l1_data_gas_price: 4 },
        l1_da_mode: L1DataAvailabilityMode::Blob,
        state_root: felt(5),
        transaction_commitment: felt(21),
        event_commitment: felt(22),
        state_diff_commitment: Some(felt(23)),
        receipt_commitment: Some(felt(24)),
        transaction_count,
        transaction_receipts: (0..n_receipts)
            .map(|i| ProviderReceipt {
                transaction_hash: felt(100 + i as u64),
                events: vec![Event { from_address: felt(1), keys: vec![felt(i as u64)], data: vec![felt(9)] }; i + 1],
            })
            .collect(),
    }
}

#[test]
fn gateway_block_conversion() {
    let v = StarknetVersion::new(0, 13, 2, 0);
    let b = GatewayBlock::try_from(&provider_block(2, 2, Some("0.13.2")), 6).unwrap();
    assert_eq!(b.header.block_number, 5);
    assert_eq!(b.header.event_count, 3);
    assert_eq!(b.header.transaction_count, 2);
    assert_eq!(b.header.state_diff_length, Some(6));
    assert_eq!(b.header.sequencer_address, felt(0));
    assert_eq!(b.header.protocol_version, v);
    assert_eq!(b.events.len(), 3);
    assert_eq!(b.events[0].transaction_hash, felt(100));
    assert_eq!(b.events[2].transaction_hash, felt(101));
    assert_eq!(b.events[2].event.keys, vec![felt(1)]);

    assert_eq!(
        GatewayBlock::try_from(&provider_block(2, 3, Some("0.13.2")), 6).unwrap_err(),
        FromGatewayError::TransactionCountNotEqualToReceiptCount
    );
    assert_eq!(
        GatewayBlock::try_from(&provider_block(2, 2, None), 6).unwrap_err(),
        FromGatewayError::FromMainnetStarknetVersion(felt(77))
    );
    assert_eq!(
        GatewayBlock::try_from(&provider_block(2, 2, Some("0.13")), 6).unwrap_err(),
        FromGatewayError::StarknetVersion
    );
    let mut mainnet = provider_block(1, 1, None);
    mainnet.mainnet_version = Some(StarknetVersion::new(0, 11, 0, 0));
    assert_eq!(GatewayBlock::try_from(&mainnet, 0).unwrap().header.protocol_version, StarknetVersion::new(0, 11, 0, 0));
}

#[test]
fn gateway_block_verification_stores_recomputed_commitments() {
    let importer = BlockImporter::new(BlockValidationConfig::default());
    let b = GatewayBlock::try_from(&provider_block(2, 2, Some("0.13.2")), 6).unwrap();
    let good = BlockCommitments {
        state_diff_commitment: felt(23),
        transaction_commitment: felt(21),
        receipt_commitment: felt(24),
        event_commitment: felt(22),
    };
    let h = verify_gateway_block(&importer, 5, &b, &good, true).unwrap();
    assert_eq!(h.transaction_commitment, felt(21));
    assert_eq!(h.receipt_commitment, Some(felt(24)));

    let bad = BlockCommitments { event_commitment: felt(1), ..good };
    assert_eq!(
        verify_gateway_block(&importer, 5, &b, &bad, true).unwrap_err(),
        BlockImportError::EventCommitment { got: felt(1), expected: felt(22) }
    );
    assert_eq!(
        verify_gateway_block(&importer, 6, &b, &good, true).unwrap_err(),
        BlockImportError::BlockNumber { got: 5, expected: 6 }
    );
}

#[test]
fn gateway_old_block_commitments_are_filled_in() {
    let importer = BlockImporter::new(BlockValidationConfig::default());
    let mut pb = provider_block(1, 1, Some("0.13.1"));
    pb.state_diff_commitment = None;
    pb.receipt_commitment = None;
    let b = GatewayBlock::try_from(&pb, 2).unwrap();
    let computed = BlockCommitments {
        state_diff_commitment: felt(31),
        transaction_commitment: felt(32),
        receipt_commitment: felt(33),
        event_commitment: felt(34),
    };
    let h = verify_gateway_block(&importer, 5, &b, &computed, true).unwrap();
    assert_eq!(h.state_diff_commitment, Some(felt(31)));
    assert_eq!(h.transaction_commitment, felt(32));
    assert_eq!(h.receipt_commitment, Some(felt(33)));
    assert_eq!(h.event_commitment, felt(34));
    assert!(verify_gateway_block(&importer, 5, &b, &computed, false).is_err());
}

fn metadata(pairs: &[(&str, &str)]) -> Vec<(Vec<u8>, Vec<u8>)> {
    pairs.iter().map(|(k, v)| (k.as_bytes().to_vec(), v.as_bytes().to_vec())).collect()
}

#[test]
fn job_metadata_attempts() {
    let key = JOB_PROCESS_ATTEMPT_METADATA_KEY.as_bytes();
    assert_eq!(get_u64_from_metadata(&metadata(&[]), key), Ok(0));
    assert_eq!(get_u64_from_metadata(&metadata(&[("process_attempt_no", "12")]), key), Ok(12));
    assert_eq!(get_u64_from_metadata(&metadata(&[("process_attempt_no", "x")]), key), Err(JobError::InvalidMetadata));

    let m = increment_key_in_metadata(&metadata(&[("other", "a")]), key).unwrap();
    assert_eq!(m, metadata(&[("other", "a"), ("process_attempt_no", "1")]));
    let m = increment_key_in_metadata(&m, key).unwrap();
    assert_eq!(m, metadata(&[("other", "a"), ("process_attempt_no", "2")]));
    let m = increment_key_in_metadata(&metadata(&[("process_attempt_no", "9")]), key).unwrap();
    assert_eq!(m, metadata(&[("process_attempt_no", "10")]));
}

#[test]
fn job_status_transitions() {
    assert_eq!(create_job(true), Err(JobError::AlreadyExists));
    assert_eq!(create_job(false), Ok(()));
    assert_eq!(process_job(JobStatus::Created), Ok(JobStatus::LockedForProcessing));
    assert_eq!(process_job(JobStatus::VerificationFailed), Ok(JobStatus::LockedForProcessing));
    assert_eq!(process_job(JobStatus::Completed), Err(JobError::InvalidStatus(JobStatus::Completed)));
    assert_eq!(check_can_verify(JobStatus::PendingVerification), Ok(()));
    assert_eq!(check_can_verify(JobStatus::Created), Err(JobError::InvalidStatus(JobStatus::Created)));
}

#[test]
fn job_verification_needs_pending_status() {
    assert_eq!(
        verify_job(JobStatus::Completed, JobVerificationStatus::Verified, 0, 3),
        Err(JobError::InvalidStatus(JobStatus::Completed))
    );
    assert_eq!(
        verify_job(JobStatus::PendingVerification, JobVerificationStatus::Verified, 0, 3),
        Ok(VerifyDecision { new_status: Some(JobStatus::Completed), action: VerifyAction::Done })
    );
}

#[test]
fn job_verification_decisions() {
    assert_eq!(
        verification_decision(JobVerificationStatus::Verified, 0, 3),
        VerifyDecision { new_status: Some(JobStatus::Completed), action: VerifyAction::Done }
    );
    assert_eq!(
        verification_decision(JobVerificationStatus::Rejected, 2, 3),
        VerifyDecision { new_status: Some(JobStatus::VerificationFailed), action: VerifyAction::RetryProcessing }
    );
    assert_eq!(
        verification_decision(JobVerificationStatus::Rejected, 3, 3),
        VerifyDecision { new_status: Some(JobStatus::VerificationFailed), action: VerifyAction::Done }
    );
    assert_eq!(
        verification_decision(JobVerificationStatus::Pending, 0, 3),
        VerifyDecision { new_status: None, action: VerifyAction::RecheckVerification }
    );
}

#[test]
fn trie_keys_map_to_columns() {
    let m = DatabaseKeyMapping { flat: Column::TrieFlat, trie: Column::TrieNodes, log: Column::TrieLog };
    assert_eq!(m.map(&DatabaseKey::Flat(vec![1])), Column::TrieFlat);
    assert_eq!(m.map(&DatabaseKey::Trie(vec![1])), Column::TrieNodes);
    assert_eq!(m.map(&DatabaseKey::TrieLog(vec![1])), Column::TrieLog);
    assert_eq!(to_changed_key(&DatabaseKey::Flat(vec![4, 5])), (1, vec![4, 5]));
    assert_eq!(to_changed_key(&DatabaseKey::Trie(vec![])), (0, vec![]));
    assert_eq!(to_changed_key(&DatabaseKey::TrieLog(vec![9])), (2, vec![9]));
}

#[test]
fn trie_prefix_scan_stops_at_first_other_key() {
    let entries = vec![
        (vec![1, 2], vec![10]),
        (vec![1, 2, 3], vec![11]),
        (vec![1, 3], vec![12]),
        (vec![1, 2, 4], vec![13]),
    ];
    assert_eq!(get_by_prefix(&entries, &[1, 2]), entries[..2].to_vec());
    assert_eq!(get_by_prefix(&entries, &[]), entries);
    assert!(get_by_prefix(&entries, &[2]).is_empty());
    let keys: Vec<Vec<u8>> = entries.iter().map(|e| e.0.clone()).collect();
    assert_eq!(keys_to_remove_by_prefix(&keys, &[1, 2]), 2);
}

#[test]
fn trie_transaction_overlay() {
    let mut t = BonsaiTransaction::new();
    let k = DatabaseKey::Flat(vec![1]);
    let other_kind = DatabaseKey::Trie(vec![1]);
    assert_eq!(t.get(&k, Some(vec![7])), Some(vec![7]));
    t.insert(&k, &[8]);
    assert_eq!(t.get(&k, Some(vec![7])), Some(vec![8]));
    assert_eq!(t.get(&other_kind, Some(vec![7])), Some(vec![7]));
    t.insert(&k, &[9]);
    assert_eq!(t.get(&k, None), Some(vec![9]));
    t.remove(&k);
    assert_eq!(t.get(&k, Some(vec![7])), None);
}

#[test]
fn settlement_types() {
    assert!(matches!(ClientType::ETH, ClientType::ETH));
    assert_ne!(ClientType::ETH, ClientType::STARKNET);
    assert_eq!(DummyConfig::default(), DummyConfig);
}

#[test]
fn job_processed_waits_for_verification() {
    let key = JOB_PROCESS_ATTEMPT_METADATA_KEY.as_bytes();
    let p = job_processed(&metadata(&[("process_attempt_no", "4")]), key).unwrap();
    assert_eq!(p.status, JobStatus::PendingVerification);
    assert_eq!(get_u64_from_metadata(&p.metadata, key), Ok(5));
    assert_eq!(
        job_processed(&metadata(&[("process_attempt_no", "18446744073709551615")]), key).unwrap_err(),
        JobError::InvalidMetadata
    );
}
