use madara_sync::chain_head::{BlockNStatus, ChainHead, MadaraBackend, MadaraStorageError, HEAD_STATUS_LEN};

#[test]
fn block_n_status_set_none_reads_none() {
    let mut s = BlockNStatus::new();
    s.set(Some(3));
    s.set(None);
    assert_eq!(s.get(), None);
    assert_eq!(s.stored(), 0);
}

#[test]
fn block_n_status_set_some_reads_back() {
    for n in [0u64, 1, 7, 1_000_000, u64::MAX - 1] {
        let mut s = BlockNStatus::new();
        s.set(Some(n));
        assert_eq!(s.get(), Some(n));
        assert_eq!(s.stored(), n + 1);
    }
}

#[test]
fn block_n_status_advance_never_goes_back() {
    let mut s = BlockNStatus::new();
    s.advance(5);
    assert_eq!(s.get(), Some(5));
    s.advance(3);
    assert_eq!(s.get(), Some(5));
    s.advance(9);
    assert_eq!(s.get(), Some(9));
}

fn head_with(values: [Option<u64>; 7]) -> ChainHead {
    let mut h = ChainHead::new();
    h.headers.set(values[0]);
    h.state_diffs.set(values[1]);
    h.classes.set(values[2]);
    h.transactions.set(values[3]);
    h.events.set(values[4]);
    h.l1_head.set(values[5]);
    h.global_trie.set(values[6]);
    h
}

#[test]
fn latest_full_block_is_the_minimum_of_the_facets() {
    let h = head_with([Some(10), Some(8), Some(12), Some(9), Some(11), None, Some(20)]);
    assert_eq!(h.latest_full_block_n(), Some(8));
    assert_eq!(h.next_full_block(), 9);
}

#[test]
fn latest_full_block_is_none_while_a_facet_is_empty() {
    let h = head_with([Some(10), Some(8), None, Some(9), Some(11), Some(3), Some(20)]);
    assert_eq!(h.latest_full_block_n(), None);
    assert_eq!(h.next_full_block(), 0);
    let empty = ChainHead::new();
    assert_eq!(empty.latest_full_block_n(), None);
}

#[test]
fn latest_full_block_ignores_the_l1_head() {
    let h = head_with([Some(4), Some(4), Some(4), Some(4), Some(4), None, Some(4)]);
    assert_eq!(h.latest_full_block_n(), Some(4));
}

#[test]
fn latest_full_block_moves_forward_with_the_facets() {
    let mut h = head_with([Some(2), Some(2), Some(2), Some(2), Some(2), None, Some(1)]);
    let before = h.latest_full_block_n();
    h.global_trie.advance(2);
    h.classes.advance(5);
    let after = h.latest_full_block_n();
    assert_eq!(before, Some(1));
    assert_eq!(after, Some(2));
    assert!(before <= after);
}

#[test]
fn chain_head_round_trip() {
    let h = head_with([Some(0), Some(1), None, Some(u64::MAX - 1), Some(42), Some(7), None]);
    let bytes = h.to_bytes();
    assert_eq!(bytes.len(), HEAD_STATUS_LEN);
    let d = ChainHead::from_bytes(&bytes).unwrap();
    assert_eq!(d.headers.get(), Some(0));
    assert_eq!(d.state_diffs.get(), Some(1));
    assert_eq!(d.classes.get(), None);
    assert_eq!(d.transactions.get(), Some(u64::MAX - 1));
    assert_eq!(d.events.get(), Some(42));
    assert_eq!(d.l1_head.get(), Some(7));
    assert_eq!(d.global_trie.get(), None);
    assert_eq!(d.to_bytes(), bytes);
}

#[test]
fn chain_head_row_layout_is_little_endian_counters() {
    let h = head_with([Some(0), None, None, None, None, None, Some(255)]);
    let bytes = h.to_bytes();
    assert_eq!(&bytes[0..8], &[1, 0, 0, 0, 0, 0, 0, 0]);
    assert_eq!(&bytes[48..56], &[0, 1, 0, 0, 0, 0, 0, 0]);
}

#[test]
fn chain_head_short_row_does_not_decode() {
    assert!(ChainHead::from_bytes(&[0u8; 55]).is_none());
    assert!(ChainHead::from_bytes(&[0u8; 56]).is_some());
}

#[test]
fn load_head_status_from_row() {
    let mut backend = MadaraBackend::new();
    let h = head_with([Some(3), Some(3), Some(3), Some(3), Some(3), None, Some(3)]);
    let row = h.to_bytes();
    assert_eq!(backend.load_head_status_from_db(Some(&row)), Ok(()));
    assert_eq!(backend.head_status().latest_full_block_n(), Some(3));
    assert_eq!(backend.head_status_row(), row);

    assert_eq!(backend.load_head_status_from_db(None), Ok(()));
    assert_eq!(backend.head_status().headers.get(), None);

    assert_eq!(backend.load_head_status_from_db(Some(&row[..10])), Err(MadaraStorageError::InvalidRow));
    assert_eq!(backend.head_status().headers.get(), None);
}

#[test]
fn defaults_are_empty() {
    let s = BlockNStatus::default();
    assert_eq!(s.get(), None);
    let h = ChainHead::default();
    assert_eq!(h.latest_full_block_n(), None);
    assert_eq!(h.to_bytes(), vec![0u8; HEAD_STATUS_LEN]);
    let mut a = BlockNStatus::new();
    a.set(Some(4));
    let b = a.clone();
    assert_eq!(b.get(), Some(4));
}
