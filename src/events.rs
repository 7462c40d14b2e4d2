use vstd::prelude::*;
use crate::felt::Felt;
use crate::token::{parse_token, ContinuationToken};

verus! {

/// The most key positions a filter may hold.
pub const MAX_EVENTS_KEYS: usize = 100;

/// The largest page that may be asked for.
pub const MAX_EVENTS_CHUNK_SIZE: u64 = 1000;

#[derive(Clone, Debug, PartialEq)]
pub struct Event {
    pub from_address: Felt,
    pub keys: Vec<Felt>,
    pub data: Vec<Felt>,
}

impl Event {
    pub fn copy(&self) -> (r: Event)
        ensures
            r.from_address == self.from_address,
            r.keys@ == self.keys@,
            r.data@ == self.data@,
    {
        Event { from_address: self.from_address, keys: copy_felts(&self.keys), data: copy_felts(&self.data) }
    }
}

#[derive(Debug)]
pub struct Receipt {
    pub transaction_hash: Felt,
    pub events: Vec<Event>,
}

/// The receipts of one block; the pending block has neither hash nor number.
#[derive(Debug)]
pub struct BlockEvents {
    pub block_hash: Option<Felt>,
    pub block_number: Option<u64>,
    pub receipts: Vec<Receipt>,
}

/// An event with the block and transaction that emitted it.
#[derive(Clone, Debug, PartialEq)]
pub struct EmittedEvent {
    pub from_address: Felt,
    pub keys: Vec<Felt>,
    pub data: Vec<Felt>,
    pub block_hash: Option<Felt>,
    pub block_number: Option<u64>,
    pub transaction_hash: Felt,
}

pub type EmittedView = (Felt, Seq<Felt>, Seq<Felt>, Option<Felt>, Option<u64>, Felt);

impl EmittedEvent {
    pub open spec fn view(&self) -> EmittedView {
        (self.from_address, self.keys@, self.data@, self.block_hash, self.block_number, self.transaction_hash)
    }
}

pub open spec fn views(s: Seq<EmittedEvent>) -> Seq<EmittedView> {
    s.map_values(|e: EmittedEvent| e@)
}

/// `keys[i]` lists the values allowed for the key at position `i`; an empty list allows
/// any value, but the event must have a key there.
pub open spec fn keys_match(event_keys: Seq<Felt>, keys: Seq<Vec<Felt>>) -> bool {
    forall|i: int| 0 <= i < keys.len() ==> #[trigger] key_position_ok(event_keys, keys[i]@, i)
}

/// The event has a key at position `i`, and `allowed` is empty or holds that key.
pub open spec fn key_position_ok(event_keys: Seq<Felt>, allowed: Seq<Felt>, i: int) -> bool {
    i < event_keys.len() && (allowed.len() == 0 || exists|j: int|
        0 <= j < allowed.len() && allowed[j].bytes@ == event_keys[i].bytes@)
}

pub open spec fn event_matches(e: Event, address: Option<Felt>, keys: Seq<Vec<Felt>>) -> bool {
    &&& address matches Some(a) ==> a.bytes@ == e.from_address.bytes@
    &&& keys_match(e.keys@, keys)
}

pub open spec fn filter_events(
    evs: Seq<Event>,
    block_hash: Option<Felt>,
    block_number: Option<u64>,
    tx: Felt,
    address: Option<Felt>,
    keys: Seq<Vec<Felt>>,
) -> Seq<EmittedView>
    decreases evs.len(),
{
    if evs.len() == 0 {
        Seq::empty()
    } else {
        let p = filter_events(evs.drop_last(), block_hash, block_number, tx, address, keys);
        let e = evs.last();
        if event_matches(e, address, keys) {
            p.push((e.from_address, e.keys@, e.data@, block_hash, block_number, tx))
        } else {
            p
        }
    }
}

pub open spec fn filter_receipts(
    rs: Seq<Receipt>,
    block_hash: Option<Felt>,
    block_number: Option<u64>,
    address: Option<Felt>,
    keys: Seq<Vec<Felt>>,
) -> Seq<EmittedView>
    decreases rs.len(),
{
    if rs.len() == 0 {
        Seq::empty()
    } else {
        filter_receipts(rs.drop_last(), block_hash, block_number, address, keys) + filter_events(
            rs.last().events@,
            block_hash,
            block_number,
            rs.last().transaction_hash,
            address,
            keys,
        )
    }
}

/// The events of a block that match the filter, in order of receipts and of events.
pub open spec fn block_filtered(b: BlockEvents, address: Option<Felt>, keys: Seq<Vec<Felt>>) -> Seq<EmittedView> {
    filter_receipts(b.receipts@, b.block_hash, b.block_number, address, keys)
}

pub fn copy_felts(v: &Vec<Felt>) -> (r: Vec<Felt>)
    ensures
        r@ == v@,
{
    let mut out: Vec<Felt> = Vec::new();
    let mut i: usize = 0;
    while i < v.len()
        invariant
            i <= v@.len(),
            out@ == v@.subrange(0, i as int),
        decreases v@.len() - i,
    {
        out.push(v[i]);
        i = i + 1;
        assert(out@ =~= v@.subrange(0, i as int));
    }
    assert(v@.subrange(0, i as int) =~= v@);
    out
}

fn contains_felt(v: &Vec<Felt>, x: &Felt) -> (r: bool)
    ensures
        r <==> exists|j: int| 0 <= j < v@.len() && v@[j].bytes@ == x.bytes@,
{
    let mut i: usize = 0;
    while i < v.len()
        invariant
            i <= v@.len(),
            forall|j: int| 0 <= j < i ==> v@[j].bytes@ != x.bytes@,
        decreases v@.len() - i,
    {
        if v[i].equals(x) {
            return true;
        }
        i = i + 1;
    }
    false
}

fn keys_match_exec(event_keys: &Vec<Felt>, keys: &Vec<Vec<Felt>>) -> (r: bool)
    ensures
        r == keys_match(event_keys@, keys@),
{
    let mut i: usize = 0;
    while i < keys.len()
        invariant
            i <= keys@.len(),
            forall|k: int| 0 <= k < i ==> #[trigger] key_position_ok(event_keys@, keys@[k]@, k),
        decreases keys@.len() - i,
    {
        if i >= event_keys.len() {
            assert(!key_position_ok(event_keys@, keys@[i as int]@, i as int));
            return false;
        }
        if keys[i].len() != 0 && !contains_felt(&keys[i], &event_keys[i]) {
            assert(!key_position_ok(event_keys@, keys@[i as int]@, i as int));
            return false;
        }
        i = i + 1;
    }
    true
}

/// The events of `block` that come from `address`, where one is given, and whose keys
/// match `keys`, each with the block's hash and number and its transaction's hash.
pub fn get_block_events(block: &BlockEvents, address: Option<Felt>, keys: &Vec<Vec<Felt>>) -> (r: Vec<EmittedEvent>)
    ensures
        views(r@) == block_filtered(*block, address, keys@),
{
    let mut out: Vec<EmittedEvent> = Vec::new();
    let mut i: usize = 0;
    while i < block.receipts.len()
        invariant
            i <= block.receipts@.len(),
            views(out@) == filter_receipts(
                block.receipts@.subrange(0, i as int),
                block.block_hash,
                block.block_number,
                address,
                keys@,
            ),
        decreases block.receipts@.len() - i,
    {
        let receipt = &block.receipts[i];
        let ghost before = views(out@);
        let mut j: usize = 0;
        while j < receipt.events.len()
            invariant
                i < block.receipts@.len(),
                *receipt == block.receipts@[i as int],
                j <= receipt.events@.len(),
                views(out@) == before + filter_events(
                    receipt.events@.subrange(0, j as int),
                    block.block_hash,
                    block.block_number,
                    receipt.transaction_hash,
                    address,
                    keys@,
                ),
            decreases receipt.events@.len() - j,
        {
            let e = &receipt.events[j];
            let ghost evs = receipt.events@.subrange(0, j + 1);
            assert(evs.drop_last() =~= receipt.events@.subrange(0, j as int));
            let address_ok = match address {
                Some(a) => a.equals(&e.from_address),
                None => true,
            };
            if address_ok && keys_match_exec(&e.keys, keys) {
                let em = EmittedEvent {
                    from_address: e.from_address,
                    keys: copy_felts(&e.keys),
                    data: copy_felts(&e.data),
                    block_hash: block.block_hash,
                    block_number: block.block_number,
                    transaction_hash: receipt.transaction_hash,
                };
                let ghost old_out = out@;
                out.push(em);
                assert(views(out@) =~= views(old_out).push(em@));
            }
            j = j + 1;
        }
        assert(receipt.events@.subrange(0, j as int) =~= receipt.events@);
        assert(block.receipts@.subrange(0, i + 1).drop_last() =~= block.receipts@.subrange(0, i as int));
        i = i + 1;
    }
    assert(block.receipts@.subrange(0, i as int) =~= block.receipts@);
    out
}

#[derive(Clone, Copy, Debug, PartialEq, Eq, Structural)]
pub enum BlockTag {
    Latest,
    Pending,
}

#[derive(Clone, Copy, Debug, PartialEq)]
pub enum BlockId {
    Hash(Felt),
    Number(u64),
    Tag(BlockTag),
}

#[derive(Clone, Copy, Debug, PartialEq, Eq, Structural)]
pub enum StarknetRpcApiError {
    TooManyKeysInFilter,
    PageSizeTooBig,
    BlockNotFound,
    InvalidContinuationToken,
}

/// The stored blocks, `blocks[n]` being block `n`, and the pending block if there is one.
#[derive(Debug)]
pub struct EventSource {
    pub blocks: Vec<BlockEvents>,
    pub pending: Option<BlockEvents>,
}

#[derive(Debug)]
pub struct EventFilterWithPage {
    pub from_block: Option<BlockId>,
    pub to_block: Option<BlockId>,
    pub address: Option<Felt>,
    pub keys: Option<Vec<Vec<Felt>>>,
    /// The text of a continuation token, as handed out with an earlier page.
    pub continuation_token: Option<Vec<u8>>,
    pub chunk_size: u64,
}

#[derive(Debug)]
pub struct EventsPage {
    pub events: Vec<EmittedEvent>,
    pub continuation_token: Option<ContinuationToken>,
}

/// The index of the first stored block with hash `h`.
pub open spec fn hash_index(bs: Seq<BlockEvents>, h: Felt) -> Option<nat>
    decreases bs.len(),
{
    if bs.len() == 0 {
        None
    } else if bs[0].block_hash matches Some(x) && x.bytes@ == h.bytes@ {
        Some(0)
    } else {
        match hash_index(bs.drop_first(), h) {
            Some(i) => Some(i + 1),
            None => None,
        }
    }
}

proof fn lemma_hash_index_bound(bs: Seq<BlockEvents>, h: Felt)
    ensures
        hash_index(bs, h) matches Some(i) ==> i < bs.len(),
    decreases bs.len(),
{
    if bs.len() > 0 {
        lemma_hash_index_bound(bs.drop_first(), h);
    }
}

/// The number of the block that `id` names.
pub open spec fn block_n_of(src: EventSource, id: BlockId) -> Result<u64, StarknetRpcApiError> {
    let n = src.blocks@.len();
    match id {
        BlockId::Number(k) => if k < n { Ok(k) } else { Err(StarknetRpcApiError::BlockNotFound) },
        BlockId::Hash(h) => match hash_index(src.blocks@, h) {
            Some(i) => Ok(i as u64),
            None => Err(StarknetRpcApiError::BlockNotFound),
        },
        BlockId::Tag(BlockTag::Latest) => if n > 0 { Ok((n - 1) as u64) } else { Err(StarknetRpcApiError::BlockNotFound) },
        BlockId::Tag(BlockTag::Pending) => if src.pending is Some { Ok(n as u64) } else { Err(StarknetRpcApiError::BlockNotFound) },
    }
}

impl EventSource {
    pub fn get_block_n(&self, id: &BlockId) -> (r: Result<u64, StarknetRpcApiError>)
        requires
            self.blocks@.len() < u64::MAX,
        ensures
            r == block_n_of(*self, *id),
            r matches Ok(k) ==> k <= self.blocks@.len(),
    {
        proof {
            if let BlockId::Hash(h) = *id {
                lemma_hash_index_bound(self.blocks@, h);
            }
        }
        let n = self.blocks.len();
        match id {
            BlockId::Number(k) => if *k < n as u64 { Ok(*k) } else { Err(StarknetRpcApiError::BlockNotFound) },
            BlockId::Hash(h) => {
                let mut i: usize = 0;
                assert(self.blocks@.subrange(0, n as int) =~= self.blocks@);
                while i < n
                    invariant
                        i <= n == self.blocks@.len(),
                        *id == BlockId::Hash(*h),
                        hash_index(self.blocks@, *h) == match hash_index(
                            self.blocks@.subrange(i as int, n as int),
                            *h,
                        ) {
                            Some(k) => Some((k + i) as nat),
                            None => None::<nat>,
                        },
                    decreases n - i,
                {
                    let ghost rest = self.blocks@.subrange(i as int, n as int);
                    assert(rest.drop_first() =~= self.blocks@.subrange(i + 1, n as int));
                    let found = match &self.blocks[i].block_hash {
                        Some(x) => x.equals(h),
                        None => false,
                    };
                    if found {
                        assert(rest[0] == self.blocks@[i as int]);
                        assert(hash_index(rest, *h) == Some(0nat));
                        return Ok(i as u64);
                    }
                    i = i + 1;
                }
                Err(StarknetRpcApiError::BlockNotFound)
            },
            BlockId::Tag(BlockTag::Latest) => if n > 0 { Ok((n - 1) as u64) } else { Err(StarknetRpcApiError::BlockNotFound) },
            BlockId::Tag(BlockTag::Pending) => if self.pending.is_some() { Ok(n as u64) } else { Err(StarknetRpcApiError::BlockNotFound) },
        }
    }
}

/// The block `b`: a stored one, or past them the pending one.
pub open spec fn block_at(src: EventSource, b: int) -> Option<BlockEvents> {
    if b < src.blocks@.len() { Some(src.blocks@[b]) } else { src.pending }
}

/// The page collected from block `b` on, with `acc` collected before it.
pub open spec fn page_from(
    src: EventSource,
    address: Option<Felt>,
    keys: Seq<Vec<Felt>>,
    b: int,
    to: int,
    from: int,
    event_n: u64,
    chunk: u64,
    acc: Seq<EmittedView>,
) -> Result<(Seq<EmittedView>, Option<ContinuationToken>), StarknetRpcApiError>
    decreases to + 1 - b,
{
    if b > to {
        Ok((acc, None))
    } else {
        match block_at(src, b) {
            None => Err(StarknetRpcApiError::BlockNotFound),
            Some(block) => {
                let evs = block_filtered(block, address, keys);
                if b == from && evs.len() < event_n {
                    Err(StarknetRpcApiError::InvalidContinuationToken)
                } else {
                    let skip: int = if b == from { event_n as int } else { 0 };
                    let room: int = chunk - acc.len();
                    let end: int = if evs.len() < skip + room { evs.len() as int } else { skip + room };
                    let reduced = evs.subrange(skip, end);
                    let acc2 = acc + reduced;
                    if acc2.len() == chunk {
                        Ok(
                            (
                                acc2,
                                Some(
                                    ContinuationToken {
                                        block_n: b as u64,
                                        event_n: if b == from { event_n.wrapping_add(chunk) } else { reduced.len() as u64 },
                                    },
                                ),
                            ),
                        )
                    } else {
                        page_from(src, address, keys, b + 1, to, from, event_n, chunk, acc2)
                    }
                }
            },
        }
    }
}

/// The block number that a bound of a filter resolves to; `default` where it has none.
pub open spec fn resolve_bound(src: EventSource, id: Option<BlockId>, default: u64) -> Result<u64, StarknetRpcApiError> {
    match id {
        Some(BlockId::Tag(BlockTag::Pending)) => Ok(src.blocks@.len() as u64),
        Some(i) => block_n_of(src, i),
        None => Ok(default),
    }
}

/// The key positions of a filter; none where it has none.
pub open spec fn filter_keys(filter: EventFilterWithPage) -> Seq<Vec<Felt>> {
    match filter.keys {
        Some(k) => k@,
        None => Seq::empty(),
    }
}

/// The matching events from event `skip` of block `b` to the end of block `to`.
pub open spec fn stream(
    src: EventSource,
    address: Option<Felt>,
    keys: Seq<Vec<Felt>>,
    b: int,
    to: int,
    skip: int,
) -> Seq<EmittedView>
    decreases to + 1 - b,
{
    if b > to {
        Seq::empty()
    } else {
        let evs = match block_at(src, b) {
            Some(block) => block_filtered(block, address, keys),
            None => Seq::empty(),
        };
        let head = if 0 <= skip <= evs.len() { evs.subrange(skip, evs.len() as int) } else { Seq::empty() };
        head + stream(src, address, keys, b + 1, to, 0)
    }
}

/// A page collected from block `b` on, followed by the events from the position of its
/// token, gives back the events from where the page started.
proof fn lemma_page_from_stream(
    src: EventSource,
    address: Option<Felt>,
    keys: Seq<Vec<Felt>>,
    b: int,
    to: int,
    from: int,
    event_n: u64,
    chunk: u64,
    acc: Seq<EmittedView>,
)
    requires
        0 <= from <= b,
        to <= u64::MAX,
        acc.len() <= chunk,
        b == from ==> acc.len() == 0,
        event_n + chunk <= u64::MAX,
    ensures
        match page_from(src, address, keys, b, to, from, event_n, chunk, acc) {
            Ok((res, tok)) => (acc + stream(src, address, keys, b, to, if b == from { event_n as int } else { 0 })
                == res + match tok {
                Some(t) => stream(src, address, keys, t.block_n as int, to, t.event_n as int),
                None => Seq::empty(),
            }) && (tok is Some ==> res.len() == chunk),
            Err(_) => true,
        },
    decreases to + 1 - b,
{
    if b > to {
        assert(acc + Seq::<EmittedView>::empty() =~= acc);
    } else {
        match block_at(src, b) {
            None => {},
            Some(block) => {
                let evs = block_filtered(block, address, keys);
                if !(b == from && evs.len() < event_n) {
                    let skip: int = if b == from { event_n as int } else { 0 };
                    let room: int = chunk - acc.len();
                    let end: int = if evs.len() < skip + room { evs.len() as int } else { skip + room };
                    let reduced = evs.subrange(skip, end);
                    let acc2 = acc + reduced;
                    let rest = stream(src, address, keys, b + 1, to, 0);
                    assert(evs.subrange(skip, evs.len() as int) =~= reduced + evs.subrange(end, evs.len() as int));
                    if acc2.len() == chunk {
                        let t_n: u64 = if b == from { event_n.wrapping_add(chunk) } else { reduced.len() as u64 };
                        assert(t_n as int == end);
                        assert(stream(src, address, keys, b, to, end) == evs.subrange(end, evs.len() as int) + rest);
                        assert(acc + (reduced + evs.subrange(end, evs.len() as int) + rest) =~= acc2 + (evs.subrange(end, evs.len() as int) + rest));
                    } else {
                        assert(end == evs.len());
                        assert(evs.subrange(end, evs.len() as int) =~= Seq::<EmittedView>::empty());
                        lemma_page_from_stream(src, address, keys, b + 1, to, from, event_n, chunk, acc2);
                        assert(acc + (reduced + evs.subrange(end, evs.len() as int) + rest) =~= acc2 + rest);
                    }
                }
            },
        }
    }
}

/// What `get_events` returns for a filter, its pages given as views.
pub open spec fn events_spec(src: EventSource, filter: EventFilterWithPage) -> Result<
    (Seq<EmittedView>, Option<ContinuationToken>),
    StarknetRpcApiError,
> {
    let keys = filter_keys(filter);
    let n = src.blocks@.len();
    if keys.len() > MAX_EVENTS_KEYS {
        Err(StarknetRpcApiError::TooManyKeysInFilter)
    } else if filter.chunk_size > MAX_EVENTS_CHUNK_SIZE {
        Err(StarknetRpcApiError::PageSizeTooBig)
    } else if n == 0 {
        Err(StarknetRpcApiError::BlockNotFound)
    } else {
        let latest = (n - 1) as u64;
        let from_r = resolve_bound(src, filter.from_block, 0);
        let to_r = resolve_bound(src, filter.to_block, latest);
        match (from_r, to_r) {
            (Err(e), _) => Err(e),
            (Ok(_), Err(e)) => Err(e),
            (Ok(from), Ok(to)) => if from > to {
                Ok((Seq::empty(), None))
            } else {
                let token = match filter.continuation_token {
                    Some(t) => parse_token(t@),
                    None => Some(ContinuationToken { block_n: from, event_n: 0 }),
                };
                match token {
                    None => Err(StarknetRpcApiError::InvalidContinuationToken),
                    Some(t) => page_from(
                        src,
                        filter.address,
                        keys,
                        t.block_n as int,
                        to as int,
                        t.block_n as int,
                        t.event_n,
                        filter.chunk_size,
                        Seq::empty(),
                    ),
                }
            },
        }
    }
}

/// Appends the events `skip..skip + take` of `from`, as far as there are any.
fn move_all(out: &mut Vec<EmittedEvent>, from: Vec<EmittedEvent>, skip: usize, take: usize)
    requires
        skip <= from@.len(),
    ensures
        views(final(out)@) == views(old(out)@) + views(from@).subrange(
            skip as int,
            if from@.len() < skip + take { from@.len() as int } else { skip + take },
        ),
{
    let end: usize = if from.len() - skip < take { from.len() } else { skip + take };
    let ghost orig = from@;
    let ghost start = out@;
    let mut from = from;
    let mut middle = from.split_off(skip);
    middle.truncate(end - skip);
    assert(middle@ =~= orig.subrange(skip as int, end as int));
    out.append(&mut middle);
    assert(views(out@) =~= views(start) + views(orig).subrange(skip as int, end as int));
}

/// The events that match `filter` from its first block, or from its continuation token, on:
/// at most `chunk_size` of them, with a token for the next page when the page is full.
pub fn get_events(src: &EventSource, filter: &EventFilterWithPage) -> (r: Result<EventsPage, StarknetRpcApiError>)
    requires
        src.blocks@.len() < u64::MAX - 1,
    ensures
        match (r, events_spec(*src, *filter)) {
            (Ok(page), Ok((evs, token))) => views(page.events@) == evs && page.continuation_token == token,
            (Err(e), Err(e2)) => e == e2,
            _ => false,
        },
{
    let empty: Vec<Vec<Felt>> = Vec::new();
    let keys: &Vec<Vec<Felt>> = match &filter.keys {
        Some(k) => k,
        None => &empty,
    };
    let chunk_size = filter.chunk_size;
    if keys.len() > MAX_EVENTS_KEYS {
        return Err(StarknetRpcApiError::TooManyKeysInFilter);
    }
    if chunk_size > MAX_EVENTS_CHUNK_SIZE {
        return Err(StarknetRpcApiError::PageSizeTooBig);
    }
    let latest_block = match src.get_block_n(&BlockId::Tag(BlockTag::Latest)) {
        Ok(n) => n,
        Err(e) => {
            return Err(e);
        },
    };
    let from_block = match &filter.from_block {
        Some(BlockId::Tag(BlockTag::Pending)) => latest_block + 1,
        Some(id) => match src.get_block_n(id) {
            Ok(n) => n,
            Err(e) => {
                return Err(e);
            },
        },
        None => 0,
    };
    let to_block = match &filter.to_block {
        Some(BlockId::Tag(BlockTag::Pending)) => latest_block + 1,
        Some(id) => match src.get_block_n(id) {
            Ok(n) => n,
            Err(e) => {
                return Err(e);
            },
        },
        None => latest_block,
    };
    if from_block > to_block {
        return Ok(EventsPage { events: Vec::new(), continuation_token: None });
    }
    let token = match &filter.continuation_token {
        Some(t) => match ContinuationToken::parse(t.as_slice()) {
            Some(t) => t,
            None => {
                return Err(StarknetRpcApiError::InvalidContinuationToken);
            },
        },
        None => ContinuationToken { block_n: from_block, event_n: 0 },
    };
    let from_block = token.block_n;
    let mut filtered: Vec<EmittedEvent> = Vec::new();
    assert(views(filtered@) =~= Seq::<EmittedView>::empty());
    if from_block > to_block {
        return Ok(EventsPage { events: filtered, continuation_token: None });
    }
    let mut block_n: u64 = from_block;
    loop
        invariant
            from_block <= block_n <= to_block,
            to_block <= src.blocks@.len(),
            src.blocks@.len() < u64::MAX - 1,
            filtered@.len() <= chunk_size,
            chunk_size <= MAX_EVENTS_CHUNK_SIZE,
            from_block == token.block_n,
            events_spec(*src, *filter) == page_from(
                *src,
                filter.address,
                keys@,
                block_n as int,
                to_block as int,
                from_block as int,
                token.event_n,
                chunk_size,
                views(filtered@),
            ),
        decreases to_block - block_n,
    {
        let ghost acc = views(filtered@);
        let block: &BlockEvents = if block_n < src.blocks.len() as u64 {
            &src.blocks[block_n as usize]
        } else {
            match &src.pending {
                Some(p) => p,
                None => {
                    return Err(StarknetRpcApiError::BlockNotFound);
                },
            }
        };
        assert(block_at(*src, block_n as int) == Some(*block));
        let block_events = get_block_events(block, filter.address, keys);
        if block_n == from_block && (block_events.len() as u64) < token.event_n {
            return Err(StarknetRpcApiError::InvalidContinuationToken);
        }
        let skip: usize = if block_n == from_block { token.event_n as usize } else { 0 };
        let room: usize = (chunk_size as usize) - filtered.len();
        let before = filtered.len();
        move_all(&mut filtered, block_events, skip, room);
        let num_events = filtered.len() - before;
        if filtered.len() as u64 == chunk_size {
            let event_n = if block_n == from_block { token.event_n.wrapping_add(chunk_size) } else { num_events as u64 };
            return Ok(EventsPage { events: filtered, continuation_token: Some(ContinuationToken { block_n, event_n }) });
        }
        if block_n == to_block {
            assert(page_from(
                *src,
                filter.address,
                keys@,
                block_n + 1,
                to_block as int,
                from_block as int,
                token.event_n,
                chunk_size,
                views(filtered@),
            ) == Ok::<(Seq<EmittedView>, Option<ContinuationToken>), StarknetRpcApiError>((views(filtered@), None)));
            return Ok(EventsPage { events: filtered, continuation_token: None });
        }
        block_n = block_n + 1;
    }
}

/// A page is where the matching events from its start position begin: all of them where it
/// has no token, and exactly `chunk_size` of them where it has one.
pub proof fn lemma_page_is_start_of_stream(src: EventSource, filter: EventFilterWithPage, from: u64, to: u64, start: ContinuationToken)
    requires
        src.blocks@.len() > 0,
        resolve_bound(src, filter.from_block, 0) == Ok::<u64, StarknetRpcApiError>(from),
        resolve_bound(src, filter.to_block, (src.blocks@.len() - 1) as u64) == Ok::<u64, StarknetRpcApiError>(to),
        from <= to,
        match filter.continuation_token {
            Some(text) => parse_token(text@) == Some(start),
            None => start == (ContinuationToken { block_n: from, event_n: 0 }),
        },
        start.event_n + filter.chunk_size <= u64::MAX,
        events_spec(src, filter) is Ok,
    ensures
        ({
            let (page, tok) = events_spec(src, filter)->Ok_0;
            let all = stream(src, filter.address, filter_keys(filter), start.block_n as int, to as int, start.event_n as int);
            &&& page.len() <= all.len()
            &&& page == all.subrange(0, page.len() as int)
            &&& tok is None ==> page == all
            &&& tok is Some ==> page.len() == filter.chunk_size
        }),
{
    lemma_page_from_stream(
        src,
        filter.address,
        filter_keys(filter),
        start.block_n as int,
        to as int,
        start.block_n as int,
        start.event_n,
        filter.chunk_size,
        Seq::empty(),
    );
    let (page, tok) = events_spec(src, filter)->Ok_0;
    let all = stream(src, filter.address, filter_keys(filter), start.block_n as int, to as int, start.event_n as int);
    assert(Seq::<EmittedView>::empty() + all =~= all);
    assert(page + Seq::<EmittedView>::empty() =~= page);
    assert(all.subrange(0, page.len() as int) =~= page);
}

/// Where the first block of a filter resolves after its last one, the page is empty and has
/// no token, whatever token the filter carries.
pub proof fn lemma_empty_range_gives_empty_page(src: EventSource, filter: EventFilterWithPage, from: u64, to: u64)
    requires
        filter_keys(filter).len() <= MAX_EVENTS_KEYS,
        filter.chunk_size <= MAX_EVENTS_CHUNK_SIZE,
        src.blocks@.len() > 0,
        resolve_bound(src, filter.from_block, 0) == Ok::<u64, StarknetRpcApiError>(from),
        resolve_bound(src, filter.to_block, (src.blocks@.len() - 1) as u64) == Ok::<u64, StarknetRpcApiError>(to),
        from > to,
    ensures
        events_spec(src, filter) == Ok::<(Seq<EmittedView>, Option<ContinuationToken>), StarknetRpcApiError>(
            (Seq::empty(), None),
        ),
{
}

/// A page with a token, then the page that the token asks for, are the first events that
/// match the filter, each once and in order: no event is skipped or repeated. Event
/// positions are assumed to fit in a `u64` once a page is added to them.
pub proof fn lemma_consecutive_pages(
    src: EventSource,
    first: EventFilterWithPage,
    second: EventFilterWithPage,
    from: u64,
    to: u64,
)
    requires
        first.continuation_token is None,
        second.from_block == first.from_block,
        second.to_block == first.to_block,
        second.address == first.address,
        filter_keys(second) == filter_keys(first),
        second.chunk_size == first.chunk_size,
        src.blocks@.len() > 0,
        resolve_bound(src, first.from_block, 0) == Ok::<u64, StarknetRpcApiError>(from),
        resolve_bound(src, first.to_block, (src.blocks@.len() - 1) as u64) == Ok::<u64, StarknetRpcApiError>(to),
        events_spec(src, first) matches Ok((_, Some(tok))) && second.continuation_token matches Some(text)
            && text@ == crate::token::token_text(tok) && tok.event_n + first.chunk_size <= u64::MAX,
        events_spec(src, second) is Ok,
    ensures
        ({
            let p1 = events_spec(src, first)->Ok_0.0;
            let p2 = events_spec(src, second)->Ok_0.0;
            let all = stream(src, first.address, filter_keys(first), from as int, to as int, 0);
            &&& (p1 + p2).len() <= all.len()
            &&& all.subrange(0, (p1 + p2).len() as int) == p1 + p2
        }),
{
    let keys = filter_keys(first);
    let tok = events_spec(src, first)->Ok_0.1->Some_0;
    let p1 = events_spec(src, first)->Ok_0.0;
    let chunk = first.chunk_size;
    lemma_page_from_stream(src, first.address, keys, from as int, to as int, from as int, 0, chunk, Seq::empty());
    crate::token::lemma_token_round_trip(tok);
    let p2 = events_spec(src, second)->Ok_0.0;
    let tok2 = events_spec(src, second)->Ok_0.1;
    lemma_page_from_stream(
        src,
        first.address,
        keys,
        tok.block_n as int,
        to as int,
        tok.block_n as int,
        tok.event_n,
        chunk,
        Seq::empty(),
    );
    let all = stream(src, first.address, keys, from as int, to as int, 0);
    let rest2 = match tok2 {
        Some(t) => stream(src, first.address, keys, t.block_n as int, to as int, t.event_n as int),
        None => Seq::empty(),
    };
    assert(Seq::<EmittedView>::empty() + all =~= all);
    assert(Seq::<EmittedView>::empty() + stream(src, first.address, keys, tok.block_n as int, to as int, tok.event_n as int)
        =~= stream(src, first.address, keys, tok.block_n as int, to as int, tok.event_n as int));
    assert(all =~= (p1 + p2) + rest2);
    assert(all.subrange(0, (p1 + p2).len() as int) =~= p1 + p2);
}

} // verus!
