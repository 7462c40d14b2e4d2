//! The block synchronization core of a Starknet full node: block verification, the chain
//! head cursor, the staged import pipeline and its controller, and event queries.

/// Progress counters of the import and their stored row.
pub mod chain_head;
/// The transaction hash with signature, over Pedersen hashing.
pub mod commitments;
/// Event filtering and paging.
pub mod events;
/// Field elements.
pub mod felt;
/// Blocks from the feeder gateway, their verification, and their headers.
pub mod gateway;
/// The gateway key header.
pub mod gateway_key;
/// Block headers and protocol versions.
pub mod header;
/// Verification of the parts of a block and of the global state root.
pub mod import;
/// Decisions of the job orchestrator.
pub mod jobs;
/// The two-step pipeline scheduler.
pub mod pipeline;
/// Settlement client kinds.
pub mod settlement;
/// The forward sync controller over three pipelines.
pub mod sync;
/// Continuation tokens of event pages.
pub mod token;
/// Key mapping, prefix scans and the write overlay of the trie store.
pub mod trie_db;
