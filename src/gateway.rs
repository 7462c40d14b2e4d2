use vstd::prelude::*;
use crate::events::Event;
use crate::felt::Felt;
use crate::header::{
    felt_or_zero, parse_version, unwrap_felt_or_zero, with_commitments_spec, GasPrices, Header, L1DataAvailabilityMode,
    StarknetVersion,
};
use crate::import::{pre_v0_13_2_special, BlockImportError, BlockImporter};

verus! {

/// A receipt as the feeder gateway sends it.
#[derive(Debug)]
pub struct ProviderReceipt {
    pub transaction_hash: Felt,
    pub events: Vec<Event>,
}

/// The parts of a block from the feeder gateway that the import reads. The protocol version
/// is the one the block states as text, if any, and else the one known for its number on
/// mainnet.
#[derive(Debug)]
pub struct ProviderBlock {
    pub block_hash: Felt,
    pub parent_block_hash: Felt,
    pub block_number: u64,
    pub sequencer_address: Option<Felt>,
    pub timestamp: u64,
    pub starknet_version: Option<Vec<u8>>,
    pub mainnet_version: Option<StarknetVersion>,
    pub l1_gas_price: GasPrices,
    pub l1_da_mode: L1DataAvailabilityMode,
    pub state_root: Felt,
    pub transaction_commitment: Felt,
    pub event_commitment: Felt,
    pub state_diff_commitment: Option<Felt>,
    pub receipt_commitment: Option<Felt>,
    pub transaction_count: u64,
    pub transaction_receipts: Vec<ProviderReceipt>,
}

#[derive(Debug)]
pub struct EventWithTransactionHash {
    pub transaction_hash: Felt,
    pub event: Event,
}

/// A block from the gateway, ready for verification.
#[derive(Debug)]
pub struct GatewayBlock {
    pub block_hash: Felt,
    pub header: Header,
    pub state_diff_length: u64,
    /// The number of transactions received.
    pub transaction_count: u64,
    pub events: Vec<EventWithTransactionHash>,
}

#[derive(Clone, Copy, Debug, PartialEq)]
pub enum FromGatewayError {
    TransactionCountNotEqualToReceiptCount,
    /// The version text does not parse.
    StarknetVersion,
    FromMainnetStarknetVersion(Felt),
}

pub open spec fn ev_view(tx: Felt, e: Event) -> (Felt, Felt, Seq<Felt>, Seq<Felt>) {
    (tx, e.from_address, e.keys@, e.data@)
}

pub open spec fn total_events(rs: Seq<ProviderReceipt>) -> nat
    decreases rs.len(),
{
    if rs.len() == 0 { 0 } else { total_events(rs.drop_last()) + rs.last().events@.len() }
}

/// The events of the receipts in order, each as its transaction hash, emitter, keys and data.
pub open spec fn flat_events(rs: Seq<ProviderReceipt>) -> Seq<(Felt, Felt, Seq<Felt>, Seq<Felt>)>
    decreases rs.len(),
{
    if rs.len() == 0 {
        Seq::empty()
    } else {
        flat_events(rs.drop_last()) + rs.last().events@.map_values(|e: Event| ev_view(rs.last().transaction_hash, e))
    }
}

pub open spec fn event_views(s: Seq<EventWithTransactionHash>) -> Seq<(Felt, Felt, Seq<Felt>, Seq<Felt>)> {
    s.map_values(|e: EventWithTransactionHash| (e.transaction_hash, e.event.from_address, e.event.keys@, e.event.data@))
}

/// The header that a gateway block states, but for the sequencer address, which reads as
/// zero where the gateway gives none.
pub open spec fn gateway_header(
    b: ProviderBlock,
    version: StarknetVersion,
    state_diff_length: u64,
    sequencer_address: Felt,
) -> Header {
    Header {
        parent_block_hash: b.parent_block_hash,
        block_number: b.block_number,
        global_state_root: b.state_root,
        sequencer_address,
        block_timestamp: b.timestamp,
        transaction_count: b.transaction_count,
        transaction_commitment: b.transaction_commitment,
        event_count: total_events(b.transaction_receipts@) as u64,
        event_commitment: b.event_commitment,
        state_diff_length: Some(state_diff_length),
        state_diff_commitment: b.state_diff_commitment,
        receipt_commitment: b.receipt_commitment,
        protocol_version: version,
        l1_gas_price: b.l1_gas_price,
        l1_da_mode: b.l1_da_mode,
    }
}


/// The protocol version of a gateway block: the one it states, else the one known for its
/// number on mainnet.
pub open spec fn gateway_version(b: ProviderBlock) -> Result<StarknetVersion, FromGatewayError> {
    match b.starknet_version {
        Some(text) => match parse_version(text@) {
            Some(v) => Ok(v),
            None => Err(FromGatewayError::StarknetVersion),
        },
        None => match b.mainnet_version {
            Some(v) => Ok(v),
            None => Err(FromGatewayError::FromMainnetStarknetVersion(b.block_hash)),
        },
    }
}

impl GatewayBlock {
    /// Builds the block to verify from what the gateway sent. `state_diff_length` is the
    /// length of the block's state diff.
    pub fn try_from(value: &ProviderBlock, state_diff_length: u64) -> (r: Result<GatewayBlock, FromGatewayError>)
        requires
            total_events(value.transaction_receipts@) <= u64::MAX,
        ensures
            value.transaction_count != value.transaction_receipts@.len() ==> r
                == Err::<GatewayBlock, FromGatewayError>(FromGatewayError::TransactionCountNotEqualToReceiptCount),
            value.transaction_count == value.transaction_receipts@.len() && gateway_version(*value) is Err ==> r
                == Err::<GatewayBlock, FromGatewayError>(gateway_version(*value)->Err_0),
            r is Ok <==> value.transaction_count == value.transaction_receipts@.len() && gateway_version(*value) is Ok,
            r matches Ok(b) ==> {
                &&& b.block_hash == value.block_hash
                &&& b.state_diff_length == state_diff_length
                &&& b.transaction_count == value.transaction_count
                &&& b.header.sequencer_address.bytes@ == felt_or_zero(value.sequencer_address)
                &&& b.header == gateway_header(
                    *value,
                    gateway_version(*value)->Ok_0,
                    state_diff_length,
                    b.header.sequencer_address,
                )
                &&& event_views(b.events@) == flat_events(value.transaction_receipts@)
            },
    {
        if value.transaction_count != value.transaction_receipts.len() as u64 {
            return Err(FromGatewayError::TransactionCountNotEqualToReceiptCount);
        }
        let protocol_version = match &value.starknet_version {
            Some(text) => match StarknetVersion::parse(text.as_slice()) {
                Some(v) => v,
                None => {
                    return Err(FromGatewayError::StarknetVersion);
                },
            },
            None => match value.mainnet_version {
                Some(v) => v,
                None => {
                    return Err(FromGatewayError::FromMainnetStarknetVersion(value.block_hash));
                },
            },
        };
        let mut events: Vec<EventWithTransactionHash> = Vec::new();
        let mut event_count: u64 = 0;
        let mut i: usize = 0;
        while i < value.transaction_receipts.len()
            invariant
                i <= value.transaction_receipts@.len(),
                total_events(value.transaction_receipts@) <= u64::MAX,
                event_count == total_events(value.transaction_receipts@.subrange(0, i as int)),
                event_views(events@) == flat_events(value.transaction_receipts@.subrange(0, i as int)),
            decreases value.transaction_receipts@.len() - i,
        {
            let receipt = &value.transaction_receipts[i];
            let ghost prefix = value.transaction_receipts@.subrange(0, i + 1);
            assert(prefix.drop_last() =~= value.transaction_receipts@.subrange(0, i as int));
            proof { lemma_total_events_prefix(value.transaction_receipts@, i + 1); }
            let ghost before = event_views(events@);
            let mut j: usize = 0;
            while j < receipt.events.len()
                invariant
                    i < value.transaction_receipts@.len(),
                    *receipt == value.transaction_receipts@[i as int],
                    j <= receipt.events@.len(),
                    event_views(events@) == before + receipt.events@.subrange(0, j as int).map_values(
                        |e: Event| ev_view(receipt.transaction_hash, e),
                    ),
                decreases receipt.events@.len() - j,
            {
                let ghost old_events = events@;
                let ev = receipt.events[j].copy();
                events.push(EventWithTransactionHash { transaction_hash: receipt.transaction_hash, event: ev });
                let ghost f = |e: Event| ev_view(receipt.transaction_hash, e);
                assert(event_views(events@) =~= event_views(old_events).push(f(receipt.events@[j as int])));
                assert(receipt.events@.subrange(0, j + 1).map_values(f) =~= receipt.events@.subrange(
                    0,
                    j as int,
                ).map_values(f).push(f(receipt.events@[j as int])));
                j = j + 1;
            }
            assert(receipt.events@.subrange(0, j as int) =~= receipt.events@);
            event_count = event_count + receipt.events.len() as u64;
            i = i + 1;
        }
        assert(value.transaction_receipts@.subrange(0, i as int) =~= value.transaction_receipts@);
        let header = Header {
            parent_block_hash: value.parent_block_hash,
            block_number: value.block_number,
            global_state_root: value.state_root,
            sequencer_address: unwrap_felt_or_zero(&value.sequencer_address),
            block_timestamp: value.timestamp,
            transaction_count: value.transaction_count,
            transaction_commitment: value.transaction_commitment,
            event_count,
            event_commitment: value.event_commitment,
            state_diff_length: Some(state_diff_length),
            state_diff_commitment: value.state_diff_commitment,
            receipt_commitment: value.receipt_commitment,
            protocol_version,
            l1_gas_price: value.l1_gas_price,
            l1_da_mode: value.l1_da_mode,
        };
        Ok(
            GatewayBlock {
                block_hash: value.block_hash,
                header,
                state_diff_length,
                transaction_count: value.transaction_count,
                events,
            },
        )
    }
}

proof fn lemma_total_events_prefix(rs: Seq<ProviderReceipt>, k: int)
    requires
        0 <= k <= rs.len(),
    ensures
        total_events(rs.subrange(0, k)) <= total_events(rs),
    decreases rs.len() - k,
{
    if k < rs.len() {
        lemma_total_events_prefix(rs, k + 1);
        assert(rs.subrange(0, k + 1).drop_last() =~= rs.subrange(0, k));
    } else {
        assert(rs.subrange(0, k) =~= rs);
    }
}

/// The commitments recomputed from a block's bodies with the block's effective version.
#[derive(Clone, Copy, Debug)]
pub struct BlockCommitments {
    pub state_diff_commitment: Felt,
    pub transaction_commitment: Felt,
    pub receipt_commitment: Felt,
    pub event_commitment: Felt,
}

/// Whether every check of a gateway block passes.
pub open spec fn block_checks_pass(
    importer: BlockImporter,
    block_n: u64,
    block: GatewayBlock,
    computed: BlockCommitments,
    allow_pre_v0_13_2: bool,
) -> bool {
    let h = block.header;
    let checks = !importer.config.no_check;
    let lenient = pre_v0_13_2_special(h, allow_pre_v0_13_2);
    let strict = checks && !lenient;
    &&& checks ==> block.state_diff_length == match h.state_diff_length {
        Some(n) => n,
        None => 0u64,
    }
    &&& strict ==> computed.state_diff_commitment.bytes@ == felt_or_zero(h.state_diff_commitment)
    &&& checks ==> block.transaction_count == h.transaction_count
    &&& strict ==> computed.transaction_commitment.bytes@ == h.transaction_commitment.bytes@
    &&& strict ==> computed.receipt_commitment.bytes@ == felt_or_zero(h.receipt_commitment)
    &&& checks ==> block.events@.len() == h.event_count
    &&& strict ==> computed.event_commitment.bytes@ == h.event_commitment.bytes@
    &&& checks ==> block_n == h.block_number
}

/// Verifies a block from the gateway: its state diff, transactions, receipts and events
/// against its header, then the header itself. Returns the header to store, whose
/// commitments are the recomputed ones; commitments that an older block lacks are filled
/// in this way.
pub fn verify_gateway_block(
    importer: &BlockImporter,
    block_n: u64,
    block: &GatewayBlock,
    computed: &BlockCommitments,
    allow_pre_v0_13_2: bool,
) -> (r: Result<Header, BlockImportError>)
    ensures
        r is Ok <==> block_checks_pass(*importer, block_n, *block, *computed, allow_pre_v0_13_2),
        r matches Ok(h) ==> h == with_commitments_spec(
            block.header,
            computed.state_diff_commitment,
            computed.transaction_commitment,
            computed.event_commitment,
            computed.receipt_commitment,
        ),
{
    let header = &block.header;
    let state_diff_commitment = match importer.verify_state_diff(
        block_n,
        block.state_diff_length,
        computed.state_diff_commitment,
        header,
        allow_pre_v0_13_2,
    ) {
        Ok(c) => c,
        Err(e) => {
            return Err(e);
        },
    };
    let (transaction_commitment, receipt_commitment) = match importer.verify_transactions(
        block_n,
        block.transaction_count,
        computed.transaction_commitment,
        computed.receipt_commitment,
        header,
        allow_pre_v0_13_2,
    ) {
        Ok(c) => c,
        Err(e) => {
            return Err(e);
        },
    };
    let event_commitment = match importer.verify_events(
        block_n,
        block.events.len() as u64,
        computed.event_commitment,
        header,
        allow_pre_v0_13_2,
    ) {
        Ok(c) => c,
        Err(e) => {
            return Err(e);
        },
    };
    let filled = block.header.with_commitments(
        state_diff_commitment,
        transaction_commitment,
        event_commitment,
        receipt_commitment,
    );
    match importer.verify_header(block_n, &filled) {
        Ok(()) => Ok(filled),
        Err(e) => Err(e),
    }
}

/// After a gateway block is verified with checks on, the header to store holds the
/// commitments recomputed from the block's bodies; where the block is not one of the
/// older ones taken on trust, so did the header it came with.
pub proof fn lemma_stored_commitments_match(
    importer: BlockImporter,
    block_n: u64,
    block: GatewayBlock,
    computed: BlockCommitments,
    allow_pre_v0_13_2: bool,
    stored: Header,
)
    requires
        block_checks_pass(importer, block_n, block, computed, allow_pre_v0_13_2),
        stored == with_commitments_spec(
            block.header,
            computed.state_diff_commitment,
            computed.transaction_commitment,
            computed.event_commitment,
            computed.receipt_commitment,
        ),
    ensures
        stored.transaction_commitment == computed.transaction_commitment,
        stored.event_commitment == computed.event_commitment,
        stored.state_diff_commitment == Some(computed.state_diff_commitment),
        stored.receipt_commitment == Some(computed.receipt_commitment),
        !importer.config.no_check && !pre_v0_13_2_special(block.header, allow_pre_v0_13_2) ==> {
            &&& block.header.transaction_commitment.bytes@ == computed.transaction_commitment.bytes@
            &&& block.header.event_commitment.bytes@ == computed.event_commitment.bytes@
            &&& felt_or_zero(block.header.state_diff_commitment) == computed.state_diff_commitment.bytes@
            &&& felt_or_zero(block.header.receipt_commitment) == computed.receipt_commitment.bytes@
        },
{
}

} // verus!
