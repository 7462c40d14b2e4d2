use madara_sync::events::get_events as query_events;
use madara_sync::events::{
    get_block_events, BlockEvents, BlockId, BlockTag, EmittedEvent, Event, EventFilterWithPage, EventSource,
    Receipt, StarknetRpcApiError,
};
use madara_sync::felt::Felt;
use madara_sync::token::ContinuationToken;

fn felt(n: u64) -> Felt {
    Felt::from_u64(n)
}

fn block_events(n: u64) -> Vec<Event> {
    vec![
        Event { from_address: felt(n), keys: vec![felt(0), felt(1), felt(n)], data: vec![] },
        Event { from_address: felt(n), keys: vec![felt(0), felt(2), felt(n)], data: vec![] },
        Event { from_address: felt(n), keys: vec![], data: vec![] },
    ]
}

fn block(n: u64) -> BlockEvents {
    BlockEvents {
        block_hash: Some(felt(n)),
        block_number: Some(n),
        receipts: vec![
            Receipt { transaction_hash: felt(n), events: block_events(n) },
            Receipt { transaction_hash: felt(n + 1), events: block_events(n) },
        ],
    }
}

/// The events of block `n` as they are emitted, in order.
fn emitted(n: u64) -> Vec<EmittedEvent> {
    let mut out = vec![];
    for tx in [n, n + 1] {
        for e in block_events(n) {
            out.push(EmittedEvent {
                from_address: e.from_address,
                keys: e.keys,
                data: e.data,
                block_hash: Some(felt(n)),
                block_number: Some(n),
                transaction_hash: felt(tx),
            });
        }
    }
    out
}

fn source(n_blocks: u64) -> EventSource {
    EventSource { blocks: (0..n_blocks).map(block).collect(), pending: None }
}

fn filter(keys: Option<Vec<Vec<Felt>>>, chunk_size: u64) -> EventFilterWithPage {
    EventFilterWithPage { from_block: None, to_block: None, address: None, keys, continuation_token: None, chunk_size }
}

fn expected(n_blocks: u64, keep: impl Fn(&EmittedEvent) -> bool, chunk: usize) -> Vec<EmittedEvent> {
    let mut out = vec![];
    for n in 0..n_blocks {
        for e in emitted(n) {
            if keep(&e) && out.len() < chunk {
                out.push(e);
            }
        }
    }
    out
}

#[test]
fn get_events() {
    let src = source(1);
    let page = query_events(&src, &filter(None, 10)).unwrap();
    assert_eq!(page.events, emitted(0));
    assert_eq!(page.continuation_token, None);
}

#[test]
fn get_events_with_keys() {
    let src = source(3);
    let page = query_events(&src, &filter(Some(vec![vec![felt(0)]]), 10)).unwrap();
    let want = expected(3, |e| !e.keys.is_empty() && e.keys[0] == felt(0), 10);
    assert_eq!(want.len(), 10);
    assert_eq!(page.events, want);
    assert_eq!(page.continuation_token, Some(ContinuationToken { block_n: 2, event_n: 2 }));
}

#[test]
fn get_events_with_keys_hard() {
    let src = source(3);
    let page = query_events(&src, &filter(Some(vec![vec![], vec![felt(1)]]), 10)).unwrap();
    let want = expected(3, |e| e.keys.len() > 1 && e.keys[1] == felt(1), 10);
    assert_eq!(want.len(), 6);
    assert_eq!(page.events, want);
    assert_eq!(page.continuation_token, None);
}

#[test]
fn get_events_with_keys_single() {
    let src = source(3);
    let page = query_events(&src, &filter(Some(vec![vec![], vec![], vec![felt(2)]]), 10)).unwrap();
    let want = expected(3, |e| e.keys.len() > 2 && e.keys[2] == felt(2), 10);
    assert_eq!(want.len(), 4);
    assert_eq!(page.events, want);
}

#[test]
fn get_events_block_no() {
    let src = source(0);
    assert_eq!(query_events(&src, &filter(None, 10)).unwrap_err(), StarknetRpcApiError::BlockNotFound);
}

#[test]
fn get_events_block_invalid() {
    let src = source(1);
    let mut f = filter(None, 10);
    f.from_block = Some(BlockId::Number(1));
    assert_eq!(query_events(&src, &f).unwrap_err(), StarknetRpcApiError::BlockNotFound);
}

#[test]
fn get_events_empty_range_gives_empty_page() {
    let src = source(3);
    let mut f = filter(None, 10);
    f.from_block = Some(BlockId::Number(2));
    f.to_block = Some(BlockId::Number(1));
    let page = query_events(&src, &f).unwrap();
    assert!(page.events.is_empty());
    assert_eq!(page.continuation_token, None);
}

#[test]
fn get_events_pages_with_continuation_token() {
    let src = source(3);
    let first = query_events(&src, &filter(None, 4)).unwrap();
    assert_eq!(first.events, emitted(0)[..4].to_vec());
    let token = first.continuation_token.unwrap();
    assert_eq!(token, ContinuationToken { block_n: 0, event_n: 4 });
    assert_eq!(token.to_bytes(), b"0-4".to_vec());

    let mut f = filter(None, 4);
    f.continuation_token = Some(token.to_bytes());
    let second = query_events(&src, &f).unwrap();
    let mut want = emitted(0)[4..].to_vec();
    want.extend(emitted(1)[..2].to_vec());
    assert_eq!(second.events, want);
    assert_eq!(second.continuation_token, Some(ContinuationToken { block_n: 1, event_n: 2 }));
}

#[test]
fn get_events_rejects_bad_tokens() {
    let src = source(1);
    let mut f = filter(None, 4);
    f.continuation_token = Some(b"zero-four".to_vec());
    assert_eq!(query_events(&src, &f).unwrap_err(), StarknetRpcApiError::InvalidContinuationToken);
    f.continuation_token = Some(b"0-7".to_vec());
    assert_eq!(query_events(&src, &f).unwrap_err(), StarknetRpcApiError::InvalidContinuationToken);
}

#[test]
fn get_events_rejects_large_requests() {
    let src = source(1);
    assert_eq!(query_events(&src, &filter(None, 1001)).unwrap_err(), StarknetRpcApiError::PageSizeTooBig);
    let keys = vec![vec![]; 101];
    assert_eq!(query_events(&src, &filter(Some(keys), 10)).unwrap_err(), StarknetRpcApiError::TooManyKeysInFilter);
}

#[test]
fn get_events_by_address_and_hash() {
    let src = source(3);
    let mut f = filter(None, 100);
    f.address = Some(felt(1));
    f.from_block = Some(BlockId::Hash(felt(1)));
    f.to_block = Some(BlockId::Tag(BlockTag::Latest));
    let page = query_events(&src, &f).unwrap();
    assert_eq!(page.events, emitted(1));
}

#[test]
fn get_events_reaches_the_pending_block() {
    let mut src = source(1);
    src.pending = Some(BlockEvents {
        block_hash: None,
        block_number: None,
        receipts: vec![Receipt { transaction_hash: felt(9), events: block_events(9) }],
    });
    let mut f = filter(None, 100);
    f.from_block = Some(BlockId::Tag(BlockTag::Pending));
    f.to_block = Some(BlockId::Tag(BlockTag::Pending));
    let page = query_events(&src, &f).unwrap();
    assert_eq!(page.events.len(), 3);
    assert_eq!(page.events[0].block_number, None);
    assert_eq!(page.events[0].transaction_hash, felt(9));
}

#[test]
fn block_events_filter_by_keys() {
    let b = block(4);
    let all = get_block_events(&b, None, &vec![]);
    assert_eq!(all, emitted(4));
    let keyed = get_block_events(&b, None, &vec![vec![felt(7), felt(2)]]);
    assert!(keyed.is_empty());
    let second = get_block_events(&b, Some(felt(4)), &vec![vec![], vec![felt(2), felt(7)]]);
    assert_eq!(second.len(), 2);
    assert!(second.iter().all(|e| e.keys[1] == felt(2)));
    assert!(get_block_events(&b, Some(felt(5)), &vec![]).is_empty());
}

#[test]
fn continuation_token_round_trip() {
    for (b, e) in [(0u64, 0u64), (12, 345), (u64::MAX, 1), (7, u64::MAX)] {
        let t = ContinuationToken { block_n: b, event_n: e };
        assert_eq!(ContinuationToken::parse(&t.to_bytes()), Some(t));
    }
    assert_eq!(ContinuationToken { block_n: 12, event_n: 345 }.to_bytes(), b"12-345".to_vec());
    assert_eq!(ContinuationToken::parse(b"1-"), None);
    assert_eq!(ContinuationToken::parse(b"-1"), None);
    assert_eq!(ContinuationToken::parse(b"1-2-3"), None);
    assert_eq!(ContinuationToken::parse(b"18446744073709551616-0"), None);
}
