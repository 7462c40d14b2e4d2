use vstd::prelude::*;
use crate::felt::{u64_felt_bytes, Felt};
use starknet_types_core::hash::StarkHash;

verus! {

/// The big-endian bytes of the Pedersen hash of the two field elements that `a` and `b`
/// write in big-endian order.
pub uninterp spec fn pedersen_of(a: Seq<u8>, b: Seq<u8>) -> Seq<u8>;

/// The Pedersen hashes chained from zero over the elements.
pub open spec fn pedersen_chain(s: Seq<Seq<u8>>) -> Seq<u8>
    decreases s.len(),
{
    if s.len() == 0 {
        u64_felt_bytes(0)
    } else {
        pedersen_of(pedersen_chain(s.drop_last()), s.last())
    }
}

/// The Pedersen hash of an array of field elements: the chain over the elements, hashed
/// with the number of elements.
pub open spec fn pedersen_array_of(s: Seq<Seq<u8>>) -> Seq<u8> {
    pedersen_of(pedersen_chain(s), u64_felt_bytes(s.len() as u64))
}

/// Relies on `starknet_types_core::hash::Pedersen::hash`, whose result depends on the two
/// elements alone.
#[verifier::external_body]
fn pedersen_hash(a: &Felt, b: &Felt) -> (r: Felt)
    ensures
        r.bytes@ == pedersen_of(a.bytes@, b.bytes@),
{
    let a = starknet_types_core::felt::Felt::from_bytes_be(&a.bytes);
    let b = starknet_types_core::felt::Felt::from_bytes_be(&b.bytes);
    Felt { bytes: starknet_types_core::hash::Pedersen::hash(&a, &b).to_bytes_be() }
}

/// Relies on `starknet_types_core::hash::Pedersen::hash_array`, which folds
/// `Pedersen::hash` from zero over the elements and hashes the result with their number.
#[verifier::external_body]
fn pedersen_hash_array(elements: &Vec<Felt>) -> (r: Felt)
    ensures
        r.bytes@ == pedersen_array_of(elements@.map_values(|f: Felt| f.bytes@)),
{
    let elements: Vec<starknet_types_core::felt::Felt> =
        elements.iter().map(|f| starknet_types_core::felt::Felt::from_bytes_be(&f.bytes)).collect();
    Felt { bytes: starknet_types_core::hash::Pedersen::hash_array(&elements).to_bytes_be() }
}

/// The first block from which the signatures of all transactions enter their hash.
pub const SIGNATURE_FROM_BLOCK: u64 = 61394;

/// Whether a transaction's signature enters its hash with signature: always for an invoke
/// transaction, and for every transaction from block 61394 on.
pub open spec fn includes_signature(is_invoke: bool, block_number: u64) -> bool {
    is_invoke || block_number >= SIGNATURE_FROM_BLOCK
}

pub open spec fn felt_views(s: Seq<Felt>) -> Seq<Seq<u8>> {
    s.map_values(|f: Felt| f.bytes@)
}

/// The hash that combines a transaction's hash with its signature, which the transaction
/// commitment is built from: `pedersen(tx_hash, pedersen_array(signature))`, with an empty
/// signature where the signature does not enter the hash.
pub fn calculate_transaction_hash_with_signature(
    transaction_hash: &Felt,
    signature: &Vec<Felt>,
    is_invoke: bool,
    block_number: u64,
) -> (r: Felt)
    ensures
        r.bytes@ == pedersen_of(
            transaction_hash.bytes@,
            pedersen_array_of(
                if includes_signature(is_invoke, block_number) {
                    felt_views(signature@)
                } else {
                    Seq::empty()
                },
            ),
        ),
{
    let signature_hash = if is_invoke || block_number >= SIGNATURE_FROM_BLOCK {
        pedersen_hash_array(signature)
    } else {
        let empty: Vec<Felt> = Vec::new();
        let h = pedersen_hash_array(&empty);
        assert(empty@.map_values(|f: Felt| f.bytes@) =~= Seq::<Seq<u8>>::empty());
        h
    };
    pedersen_hash(transaction_hash, &signature_hash)
}

} // verus!
