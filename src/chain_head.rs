use vstd::prelude::*;

verus! {

/// The order on progress counters: no block is below every block.
pub open spec fn opt_le(a: Option<u64>, b: Option<u64>) -> bool {
    match (a, b) {
        (None, _) => true,
        (Some(_), None) => false,
        (Some(x), Some(y)) => x <= y,
    }
}

/// A counter moved forward to `n`: a counter already past it stays.
pub open spec fn advanced(s: Option<u64>, n: u64) -> Option<u64> {
    Some(
        match s {
            Some(m) => if m >= n { m } else { n },
            None => n,
        },
    )
}

/// The smaller of two progress counters; `None` where either is `None`.
pub open spec fn opt_min(a: Option<u64>, b: Option<u64>) -> Option<u64> {
    match (a, b) {
        (Some(x), Some(y)) => Some(if x <= y { x } else { y }),
        _ => None,
    }
}

fn min_status(a: Option<u64>, b: Option<u64>) -> (r: Option<u64>)
    ensures
        r == opt_min(a, b),
{
    match (a, b) {
        (Some(x), Some(y)) => Some(if x <= y { x } else { y }),
        _ => None,
    }
}

/// Progress of one facet of the chain: `Some(n)` says that blocks `0..=n` are imported.
/// The counter is held as `n + 1`, so that zero stands for `None`.
#[derive(Clone, Copy, Debug)]
pub struct BlockNStatus {
    stored: u64,
}

impl BlockNStatus {
    pub closed spec fn stored_value(&self) -> u64 {
        self.stored
    }

    pub open spec fn view(&self) -> Option<u64> {
        if self.stored_value() == 0 { None } else { Some((self.stored_value() - 1) as u64) }
    }

    pub fn new() -> (r: BlockNStatus)
        ensures
            r@ == None::<u64>,
            r.stored_value() == 0,
    {
        BlockNStatus { stored: 0 }
    }

    /// The counter as it is held: zero for `None`, `n + 1` for `Some(n)`.
    pub fn from_stored(stored: u64) -> (r: BlockNStatus)
        ensures
            r.stored_value() == stored,
    {
        BlockNStatus { stored }
    }

    pub fn stored(&self) -> (r: u64)
        ensures
            r == self.stored_value(),
    {
        self.stored
    }

    pub fn get(&self) -> (r: Option<u64>)
        ensures
            r == self@,
            r matches Some(n) ==> n < u64::MAX,
    {
        self.stored.checked_sub(1)
    }

    pub fn set(&mut self, block_n: Option<u64>)
        requires
            block_n matches Some(n) ==> n < u64::MAX,
        ensures
            final(self)@ == block_n,
            final(self).stored_value() == stored_for(block_n),
    {
        self.stored = match block_n {
            Some(n) => n + 1,
            None => 0,
        };
    }

    /// Moves the counter forward to `block_n`; a counter already past it stays.
    pub fn advance(&mut self, block_n: u64)
        requires
            block_n < u64::MAX,
        ensures
            final(self)@ == advanced(old(self)@, block_n),
            opt_le(old(self)@, final(self)@),
            opt_le(Some(block_n), final(self)@),
    {
        let next = match self.get() {
            Some(n) => if n >= block_n { n } else { block_n },
            None => block_n,
        };
        self.set(Some(next));
    }

    pub fn clone_status(&self) -> (r: BlockNStatus)
        ensures
            r.stored_value() == self.stored_value(),
    {
        BlockNStatus { stored: self.stored }
    }
}

/// The value held for a counter: zero for `None`, `n + 1` for `Some(n)`.
pub open spec fn stored_for(block_n: Option<u64>) -> u64 {
    match block_n {
        Some(n) => (n + 1) as u64,
        None => 0u64,
    }
}

/// A counter that holds what `set(block_n)` stores reads back as `block_n`. The one value
/// left out is `Some(u64::MAX)`, whose successor does not fit.
pub proof fn lemma_block_n_status_set_get(t: &BlockNStatus, block_n: Option<u64>)
    requires
        block_n matches Some(n) ==> n < u64::MAX,
        t.stored_value() == stored_for(block_n),
    ensures
        t@ == block_n,
        block_n matches Some(n) ==> t.stored_value() == n + 1,
        block_n is None ==> t.stored_value() == 0,
{
}

impl Default for BlockNStatus {
    fn default() -> (r: BlockNStatus)
        ensures
            r@ == None::<u64>,
            r.stored_value() == 0,
    {
        BlockNStatus::new()
    }
}

/// Progress of each facet of the import, one counter per sub-pipeline.
#[derive(Debug)]
pub struct ChainHead {
    pub headers: BlockNStatus,
    pub state_diffs: BlockNStatus,
    pub classes: BlockNStatus,
    pub transactions: BlockNStatus,
    pub events: BlockNStatus,
    pub l1_head: BlockNStatus,
    pub global_trie: BlockNStatus,
}

impl Default for ChainHead {
    fn default() -> (r: ChainHead)
        ensures
            r.headers@ == None::<u64>,
            r.state_diffs@ == None::<u64>,
            r.classes@ == None::<u64>,
            r.transactions@ == None::<u64>,
            r.events@ == None::<u64>,
            r.l1_head@ == None::<u64>,
            r.global_trie@ == None::<u64>,
    {
        ChainHead::new()
    }
}

/// The latest block that every facet but the L1 head has imported.
pub open spec fn latest_full_spec(h: &ChainHead) -> Option<u64> {
    opt_min(
        opt_min(
            opt_min(opt_min(opt_min(h.headers@, h.state_diffs@), h.classes@), h.transactions@),
            h.events@,
        ),
        h.global_trie@,
    )
}

/// Each facet of `b` is at least as far as that of `a`.
pub open spec fn head_le(a: &ChainHead, b: &ChainHead) -> bool {
    &&& opt_le(a.headers@, b.headers@)
    &&& opt_le(a.state_diffs@, b.state_diffs@)
    &&& opt_le(a.classes@, b.classes@)
    &&& opt_le(a.transactions@, b.transactions@)
    &&& opt_le(a.events@, b.events@)
    &&& opt_le(a.l1_head@, b.l1_head@)
    &&& opt_le(a.global_trie@, b.global_trie@)
}

/// The number of the first block that is not fully imported.
pub open spec fn next_full_spec(h: &ChainHead) -> u64 {
    match latest_full_spec(h) {
        Some(n) => (n + 1) as u64,
        None => 0,
    }
}

impl ChainHead {
    pub fn new() -> (r: ChainHead)
        ensures
            r.headers@ == None::<u64>,
            r.state_diffs@ == None::<u64>,
            r.classes@ == None::<u64>,
            r.transactions@ == None::<u64>,
            r.events@ == None::<u64>,
            r.l1_head@ == None::<u64>,
            r.global_trie@ == None::<u64>,
    {
        ChainHead {
            headers: BlockNStatus::new(),
            state_diffs: BlockNStatus::new(),
            classes: BlockNStatus::new(),
            transactions: BlockNStatus::new(),
            events: BlockNStatus::new(),
            l1_head: BlockNStatus::new(),
            global_trie: BlockNStatus::new(),
        }
    }

    /// The latest block for which headers, transactions, events, state diffs, classes and
    /// the global trie are all imported.
    pub fn latest_full_block_n(&self) -> (r: Option<u64>)
        ensures
            r == latest_full_spec(self),
            r matches Some(n) ==> n < u64::MAX,
    {
        let a = min_status(self.headers.get(), self.state_diffs.get());
        let a = min_status(a, self.classes.get());
        let a = min_status(a, self.transactions.get());
        let a = min_status(a, self.events.get());
        min_status(a, self.global_trie.get())
    }

    /// The first block that is not fully imported.
    pub fn next_full_block(&self) -> (r: u64)
        ensures
            r == next_full_spec(self),
    {
        match self.latest_full_block_n() {
            Some(n) => n + 1,
            None => 0,
        }
    }
}

/// Moving facets forward never moves the latest fully imported block back.
pub proof fn lemma_latest_full_block_monotone(a: &ChainHead, b: &ChainHead)
    requires
        head_le(a, b),
    ensures
        opt_le(latest_full_spec(a), latest_full_spec(b)),
        next_full_spec(a) <= next_full_spec(b),
{
}

/// Storage failures.
#[derive(Clone, Debug, PartialEq, Eq, Structural)]
pub enum MadaraStorageError {
    /// A stored row does not decode.
    InvalidRow,
}

/// The row of the metadata column that holds the head.
pub const ROW_HEAD_STATUS: &'static str = "head_status";

/// The state of the node that the sync owns: the progress of each facet.
#[derive(Debug)]
pub struct MadaraBackend {
    pub head_status: ChainHead,
}

impl MadaraBackend {
    pub fn new() -> (r: MadaraBackend)
        ensures
            r.head_status.headers@ == None::<u64>,
            r.head_status.state_diffs@ == None::<u64>,
            r.head_status.classes@ == None::<u64>,
            r.head_status.transactions@ == None::<u64>,
            r.head_status.events@ == None::<u64>,
            r.head_status.l1_head@ == None::<u64>,
            r.head_status.global_trie@ == None::<u64>,
    {
        MadaraBackend { head_status: ChainHead::new() }
    }

    pub fn head_status(&self) -> (r: &ChainHead)
        ensures
            r == &self.head_status,
    {
        &self.head_status
    }

    /// Replaces the head by the one stored in `row`, the content of the head row if there
    /// is one. Without a row the head starts empty; a row that does not decode leaves it
    /// empty and fails.
    pub fn load_head_status_from_db(&mut self, row: Option<&[u8]>) -> (r: Result<(), MadaraStorageError>)
        ensures
            row is None ==> r is Ok && final(self).head_status.headers@ == None::<u64>
                && final(self).head_status.state_diffs@ == None::<u64>
                && final(self).head_status.classes@ == None::<u64>
                && final(self).head_status.transactions@ == None::<u64>
                && final(self).head_status.events@ == None::<u64>
                && final(self).head_status.l1_head@ == None::<u64>
                && final(self).head_status.global_trie@ == None::<u64>,
            row matches Some(s) ==> (r is Ok <==> s@.len() >= HEAD_STATUS_LEN),
            (row matches Some(s) && s@.len() >= HEAD_STATUS_LEN) ==> decodes_to(row->Some_0@, &final(self).head_status),
            r is Err ==> final(self).head_status.headers@ == None::<u64>
                && final(self).head_status.global_trie@ == None::<u64>,
    {
        self.head_status = ChainHead::new();
        if let Some(bytes) = row {
            match ChainHead::from_bytes(bytes) {
                Some(h) => {
                    self.head_status = h;
                },
                None => {
                    return Err(MadaraStorageError::InvalidRow);
                },
            }
        }
        Ok(())
    }

    /// The content of the head row.
    pub fn head_status_row(&self) -> (r: Vec<u8>)
        ensures
            r@ == head_bytes(&self.head_status),
    {
        self.head_status.to_bytes()
    }
}

// The stored row: the seven held counters, each as eight little-endian bytes, in the
// order of the fields.

pub open spec fn u64_le_bytes(v: u64) -> Seq<u8> {
    seq![
        v as u8,
        (v >> 8u64) as u8,
        (v >> 16u64) as u8,
        (v >> 24u64) as u8,
        (v >> 32u64) as u8,
        (v >> 40u64) as u8,
        (v >> 48u64) as u8,
        (v >> 56u64) as u8,
    ]
}

pub open spec fn le_u64(s: Seq<u8>) -> u64 {
    (s[0] as u64) | ((s[1] as u64) << 8u64) | ((s[2] as u64) << 16u64) | ((s[3] as u64) << 24u64)
        | ((s[4] as u64) << 32u64) | ((s[5] as u64) << 40u64) | ((s[6] as u64) << 48u64)
        | ((s[7] as u64) << 56u64)
}

pub const HEAD_STATUS_LEN: usize = 56;

pub open spec fn head_bytes(h: &ChainHead) -> Seq<u8> {
    u64_le_bytes(h.headers.stored_value()) + u64_le_bytes(h.state_diffs.stored_value())
        + u64_le_bytes(h.classes.stored_value()) + u64_le_bytes(h.transactions.stored_value())
        + u64_le_bytes(h.events.stored_value()) + u64_le_bytes(h.l1_head.stored_value())
        + u64_le_bytes(h.global_trie.stored_value())
}

/// The counter held at position `k` of a row.
pub open spec fn stored_at(s: Seq<u8>, k: int) -> u64 {
    le_u64(s.subrange(8 * k, 8 * k + 8))
}

/// Whether `h` is what a row decodes to. Bytes past the seven counters are ignored.
pub open spec fn decodes_to(s: Seq<u8>, h: &ChainHead) -> bool {
    &&& s.len() >= 56
    &&& h.headers.stored_value() == stored_at(s, 0)
    &&& h.state_diffs.stored_value() == stored_at(s, 1)
    &&& h.classes.stored_value() == stored_at(s, 2)
    &&& h.transactions.stored_value() == stored_at(s, 3)
    &&& h.events.stored_value() == stored_at(s, 4)
    &&& h.l1_head.stored_value() == stored_at(s, 5)
    &&& h.global_trie.stored_value() == stored_at(s, 6)
}

/// Each facet of two heads holds the same counter.
pub open spec fn same_head(a: &ChainHead, b: &ChainHead) -> bool {
    &&& a.headers.stored_value() == b.headers.stored_value()
    &&& a.state_diffs.stored_value() == b.state_diffs.stored_value()
    &&& a.classes.stored_value() == b.classes.stored_value()
    &&& a.transactions.stored_value() == b.transactions.stored_value()
    &&& a.events.stored_value() == b.events.stored_value()
    &&& a.l1_head.stored_value() == b.l1_head.stored_value()
    &&& a.global_trie.stored_value() == b.global_trie.stored_value()
}

pub proof fn lemma_u64_le_round_trip(v: u64)
    ensures
        le_u64(u64_le_bytes(v)) == v,
{
    let b = u64_le_bytes(v);
    let b0 = b[0];
    let b1 = b[1];
    let b2 = b[2];
    let b3 = b[3];
    let b4 = b[4];
    let b5 = b[5];
    let b6 = b[6];
    let b7 = b[7];
    assert((b0 as u64) | ((b1 as u64) << 8u64) | ((b2 as u64) << 16u64) | ((b3 as u64) << 24u64)
        | ((b4 as u64) << 32u64) | ((b5 as u64) << 40u64) | ((b6 as u64) << 48u64)
        | ((b7 as u64) << 56u64) == v) by (bit_vector)
        requires
            b0 == v as u8,
            b1 == (v >> 8u64) as u8,
            b2 == (v >> 16u64) as u8,
            b3 == (v >> 24u64) as u8,
            b4 == (v >> 32u64) as u8,
            b5 == (v >> 40u64) as u8,
            b6 == (v >> 48u64) as u8,
            b7 == (v >> 56u64) as u8,
    ;
}

/// Encoding a head and decoding the row gives back the same counters.
pub proof fn lemma_head_round_trip(h: &ChainHead, d: &ChainHead)
    requires
        decodes_to(head_bytes(h), d),
    ensures
        same_head(h, d),
        head_bytes(h).len() == HEAD_STATUS_LEN,
{
    let s = head_bytes(h);
    lemma_head_bytes_parts(h);
    lemma_u64_le_round_trip(h.headers.stored_value());
    lemma_u64_le_round_trip(h.state_diffs.stored_value());
    lemma_u64_le_round_trip(h.classes.stored_value());
    lemma_u64_le_round_trip(h.transactions.stored_value());
    lemma_u64_le_round_trip(h.events.stored_value());
    lemma_u64_le_round_trip(h.l1_head.stored_value());
    lemma_u64_le_round_trip(h.global_trie.stored_value());
}

proof fn lemma_head_bytes_parts(h: &ChainHead)
    ensures
        head_bytes(h).len() == 56,
        head_bytes(h).subrange(0, 8) == u64_le_bytes(h.headers.stored_value()),
        head_bytes(h).subrange(8, 16) == u64_le_bytes(h.state_diffs.stored_value()),
        head_bytes(h).subrange(16, 24) == u64_le_bytes(h.classes.stored_value()),
        head_bytes(h).subrange(24, 32) == u64_le_bytes(h.transactions.stored_value()),
        head_bytes(h).subrange(32, 40) == u64_le_bytes(h.events.stored_value()),
        head_bytes(h).subrange(40, 48) == u64_le_bytes(h.l1_head.stored_value()),
        head_bytes(h).subrange(48, 56) == u64_le_bytes(h.global_trie.stored_value()),
{
    let s = head_bytes(h);
    assert(s.subrange(0, 8) =~= u64_le_bytes(h.headers.stored_value()));
    assert(s.subrange(8, 16) =~= u64_le_bytes(h.state_diffs.stored_value()));
    assert(s.subrange(16, 24) =~= u64_le_bytes(h.classes.stored_value()));
    assert(s.subrange(24, 32) =~= u64_le_bytes(h.transactions.stored_value()));
    assert(s.subrange(32, 40) =~= u64_le_bytes(h.events.stored_value()));
    assert(s.subrange(40, 48) =~= u64_le_bytes(h.l1_head.stored_value()));
    assert(s.subrange(48, 56) =~= u64_le_bytes(h.global_trie.stored_value()));
}

fn push_u64_le(out: &mut Vec<u8>, v: u64)
    ensures
        final(out)@ == old(out)@ + u64_le_bytes(v),
{
    out.push(v as u8);
    out.push((v >> 8) as u8);
    out.push((v >> 16) as u8);
    out.push((v >> 24) as u8);
    out.push((v >> 32) as u8);
    out.push((v >> 40) as u8);
    out.push((v >> 48) as u8);
    out.push((v >> 56) as u8);
    assert(out@ =~= old(out)@ + u64_le_bytes(v));
}

fn read_u64_le(s: &[u8], off: usize) -> (r: u64)
    requires
        off + 8 <= s@.len(),
    ensures
        r == le_u64(s@.subrange(off as int, off + 8)),
{
    let ghost w = s@.subrange(off as int, off + 8);
    assert(w[0] == s@[off as int] && w[1] == s@[off + 1] && w[2] == s@[off + 2] && w[3] == s@[off
        + 3] && w[4] == s@[off + 4] && w[5] == s@[off + 5] && w[6] == s@[off + 6] && w[7] == s@[off
        + 7]);
    (s[off] as u64) | ((s[off + 1] as u64) << 8u64) | ((s[off + 2] as u64) << 16u64) | ((s[off
        + 3] as u64) << 24u64) | ((s[off + 4] as u64) << 32u64) | ((s[off + 5] as u64) << 40u64)
        | ((s[off + 6] as u64) << 48u64) | ((s[off + 7] as u64) << 56u64)
}

impl ChainHead {
    /// The row that holds this head in the store.
    pub fn to_bytes(&self) -> (r: Vec<u8>)
        ensures
            r@ == head_bytes(self),
            r@.len() == HEAD_STATUS_LEN,
    {
        let mut out: Vec<u8> = Vec::new();
        push_u64_le(&mut out, self.headers.stored());
        push_u64_le(&mut out, self.state_diffs.stored());
        push_u64_le(&mut out, self.classes.stored());
        push_u64_le(&mut out, self.transactions.stored());
        push_u64_le(&mut out, self.events.stored());
        push_u64_le(&mut out, self.l1_head.stored());
        push_u64_le(&mut out, self.global_trie.stored());
        proof { lemma_head_bytes_parts(self); }
        assert(out@ =~= head_bytes(self));
        out
    }

    /// Reads a head back from its row; `None` where the row is too short.
    pub fn from_bytes(s: &[u8]) -> (r: Option<ChainHead>)
        ensures
            r is Some <==> s@.len() >= HEAD_STATUS_LEN,
            r matches Some(h) ==> decodes_to(s@, &h),
    {
        if s.len() < HEAD_STATUS_LEN {
            return None;
        }
        Some(ChainHead {
            headers: BlockNStatus::from_stored(read_u64_le(s, 0)),
            state_diffs: BlockNStatus::from_stored(read_u64_le(s, 8)),
            classes: BlockNStatus::from_stored(read_u64_le(s, 16)),
            transactions: BlockNStatus::from_stored(read_u64_le(s, 24)),
            events: BlockNStatus::from_stored(read_u64_le(s, 32)),
            l1_head: BlockNStatus::from_stored(read_u64_le(s, 40)),
            global_trie: BlockNStatus::from_stored(read_u64_le(s, 48)),
        })
    }
}

/// Writing a head to its row and reading the row back gives a head with the same counters.
pub proof fn lemma_chain_head_serialization_round_trip(h: &ChainHead)
    ensures
        head_bytes(h).len() >= HEAD_STATUS_LEN,
        forall|d: ChainHead| #[trigger] decodes_to(head_bytes(h), &d) ==> same_head(h, &d),
{
    lemma_head_bytes_parts(h);
    assert forall|d: ChainHead| #[trigger] decodes_to(head_bytes(h), &d) implies same_head(h, &d) by {
        lemma_head_round_trip(h, &d);
    }
}

} // verus!
