use vstd::prelude::*;

verus! {

/// The chain that a settlement client watches.
#[derive(Clone, Copy, Debug, PartialEq, Eq, Structural)]
pub enum ClientType {
    ETH,
    STARKNET,
}

/// The configuration of a settlement client that needs none.
#[derive(Clone, Copy, Debug, Default, PartialEq, Eq, Structural)]
pub struct DummyConfig;

} // verus!
