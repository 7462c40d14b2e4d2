use vstd::prelude::*;
use crate::felt::{u64_felt_bytes, Felt};
use crate::token::{all_digits, dec_value, parse_dec};

verus! {

/// A protocol version `major.minor.patch.build`.
#[derive(Clone, Copy, Debug, PartialEq, Eq, Structural)]
pub struct StarknetVersion {
    pub major: u8,
    pub minor: u8,
    pub patch: u8,
    pub build: u8,
}

pub open spec fn version_lt(a: StarknetVersion, b: StarknetVersion) -> bool {
    if a.major != b.major {
        a.major < b.major
    } else if a.minor != b.minor {
        a.minor < b.minor
    } else if a.patch != b.patch {
        a.patch < b.patch
    } else {
        a.build < b.build
    }
}

pub open spec fn v0_13_2_spec() -> StarknetVersion {
    StarknetVersion { major: 0, minor: 13, patch: 2, build: 0 }
}

/// The version from which commitments are computed as they are today.
pub fn v0_13_2() -> (r: StarknetVersion)
    ensures
        r == v0_13_2_spec(),
{
    StarknetVersion { major: 0, minor: 13, patch: 2, build: 0 }
}

impl StarknetVersion {
    pub fn new(major: u8, minor: u8, patch: u8, build: u8) -> (r: StarknetVersion)
        ensures
            r == (StarknetVersion { major, minor, patch, build }),
    {
        StarknetVersion { major, minor, patch, build }
    }

    pub fn less_than(&self, other: &StarknetVersion) -> (r: bool)
        ensures
            r == version_lt(*self, *other),
    {
        if self.major != other.major {
            self.major < other.major
        } else if self.minor != other.minor {
            self.minor < other.minor
        } else if self.patch != other.patch {
            self.patch < other.patch
        } else {
            self.build < other.build
        }
    }
}

/// The pieces of `s` between the bytes `sep`.
pub open spec fn split_on(s: Seq<u8>, sep: u8) -> Seq<Seq<u8>>
    decreases s.len(),
{
    if s.len() == 0 {
        seq![Seq::<u8>::empty()]
    } else {
        let p = split_on(s.drop_last(), sep);
        if s.last() == sep {
            p.push(Seq::empty())
        } else {
            p.update(p.len() - 1, p.last().push(s.last()))
        }
    }
}

/// A component of a version: decimal digits for a number up to 255.
pub open spec fn component_ok(c: Seq<u8>) -> bool {
    c.len() > 0 && all_digits(c) && dec_value(c) <= 255
}

/// The version that a text such as `0.13.2` or `0.13.1.1` writes: three or four components
/// between dots; a missing fourth reads as zero.
pub open spec fn parse_version(s: Seq<u8>) -> Option<StarknetVersion> {
    let parts = split_on(s, 46u8);
    if (parts.len() == 3 || parts.len() == 4) && forall|i: int| 0 <= i < parts.len() ==> component_ok(#[trigger] parts[i]) {
        Some(
            StarknetVersion {
                major: dec_value(parts[0]) as u8,
                minor: dec_value(parts[1]) as u8,
                patch: dec_value(parts[2]) as u8,
                build: if parts.len() == 4 { dec_value(parts[3]) as u8 } else { 0 },
            },
        )
    } else {
        None
    }
}

fn parse_component(c: &Vec<u8>) -> (r: Option<u8>)
    ensures
        r is Some <==> component_ok(c@),
        r matches Some(v) ==> v == dec_value(c@),
{
    if c.len() == 0 {
        return None;
    }
    assert(c@.subrange(0, c@.len() as int) =~= c@);
    match parse_dec(c.as_slice(), 0, c.len()) {
        Some(v) => if v <= 255 { Some(v as u8) } else { None },
        None => None,
    }
}

impl StarknetVersion {
    /// Reads a version from its text.
    pub fn parse(s: &[u8]) -> (r: Option<StarknetVersion>)
        ensures
            r == parse_version(s@),
    {
        let mut parts: Vec<Vec<u8>> = Vec::new();
        parts.push(Vec::new());
        let mut i: usize = 0;
        assert(s@.subrange(0, 0) =~= Seq::<u8>::empty());
        assert(parts@.map_values(|p: Vec<u8>| p@) =~= split_on(Seq::empty(), 46u8));
        while i < s.len()
            invariant
                i <= s@.len(),
                parts@.len() >= 1,
                parts@.map_values(|p: Vec<u8>| p@) == split_on(s@.subrange(0, i as int), 46u8),
            decreases s@.len() - i,
        {
            let ghost before = parts@.map_values(|p: Vec<u8>| p@);
            assert(s@.subrange(0, i + 1).drop_last() =~= s@.subrange(0, i as int));
            if s[i] == 46 {
                parts.push(Vec::new());
                assert(parts@.map_values(|p: Vec<u8>| p@) =~= before.push(Seq::empty()));
            } else {
                let last = parts.len() - 1;
                let mut piece = parts.pop().unwrap();
                piece.push(s[i]);
                parts.push(piece);
                assert(parts@.map_values(|p: Vec<u8>| p@) =~= before.update(last as int, before.last().push(s@[i as int])));
            }
            i = i + 1;
        }
        assert(s@.subrange(0, i as int) =~= s@);
        let ghost views = parts@.map_values(|p: Vec<u8>| p@);
        let n = parts.len();
        if n != 3 && n != 4 {
            return None;
        }
        let mut values: Vec<u8> = Vec::new();
        let mut k: usize = 0;
        while k < n
            invariant
                n == parts@.len(),
                k <= n,
                views == parts@.map_values(|p: Vec<u8>| p@),
                views == split_on(s@, 46u8),
                values@.len() == k,
                forall|j: int| 0 <= j < k ==> component_ok(#[trigger] views[j]) && values@[j] == dec_value(views[j]),
            decreases n - k,
        {
            match parse_component(&parts[k]) {
                Some(v) => {
                    values.push(v);
                },
                None => {
                    assert(!component_ok(views[k as int]));
                    return None;
                },
            }
            k = k + 1;
        }
        let build = if n == 4 { values[3] } else { 0 };
        Some(StarknetVersion { major: values[0], minor: values[1], patch: values[2], build })
    }
}

/// The version that hashes of a block are computed with: its own, but never below v0.13.2.
pub open spec fn effective_version_spec(v: StarknetVersion) -> StarknetVersion {
    if version_lt(v, v0_13_2_spec()) { v0_13_2_spec() } else { v }
}

pub fn effective_version(v: &StarknetVersion) -> (r: StarknetVersion)
    ensures
        r == effective_version_spec(*v),
{
    let base = v0_13_2();
    if v.less_than(&base) { base } else { *v }
}

#[derive(Clone, Copy, Debug, PartialEq, Eq, Structural)]
pub enum L1DataAvailabilityMode {
    Calldata,
    Blob,
}

#[derive(Clone, Copy, Debug, PartialEq, Eq, Structural)]
pub struct GasPrices {
    pub eth_l1_gas_price: u128,
    pub strk_l1_gas_price: u128,
    pub eth_l1_data_gas_price: u128,
    pub strk_l1_data_gas_price: u128,
}

/// A block header.
#[derive(Clone, Copy, Debug)]
pub struct Header {
    pub parent_block_hash: Felt,
    pub block_number: u64,
    pub global_state_root: Felt,
    pub sequencer_address: Felt,
    pub block_timestamp: u64,
    pub transaction_count: u64,
    pub transaction_commitment: Felt,
    pub event_count: u64,
    pub event_commitment: Felt,
    pub state_diff_length: Option<u64>,
    pub state_diff_commitment: Option<Felt>,
    pub receipt_commitment: Option<Felt>,
    pub protocol_version: StarknetVersion,
    pub l1_gas_price: GasPrices,
    pub l1_da_mode: L1DataAvailabilityMode,
}

/// A commitment that a header may lack reads as zero.
pub open spec fn felt_or_zero(f: Option<Felt>) -> Seq<u8> {
    match f {
        Some(x) => x.bytes@,
        None => u64_felt_bytes(0),
    }
}

pub fn unwrap_felt_or_zero(f: &Option<Felt>) -> (r: Felt)
    ensures
        r.bytes@ == felt_or_zero(*f),
        f matches Some(x) ==> r == x,
{
    match f {
        Some(x) => *x,
        None => Felt::zero(),
    }
}

/// The header with the four commitments replaced by those given.
pub open spec fn with_commitments_spec(
    h: Header,
    state_diff_commitment: Felt,
    transaction_commitment: Felt,
    event_commitment: Felt,
    receipt_commitment: Felt,
) -> Header {
    Header {
        state_diff_commitment: Some(state_diff_commitment),
        transaction_commitment,
        event_commitment,
        receipt_commitment: Some(receipt_commitment),
        ..h
    }
}

impl Header {
    pub fn with_commitments(
        self,
        state_diff_commitment: Felt,
        transaction_commitment: Felt,
        event_commitment: Felt,
        receipt_commitment: Felt,
    ) -> (r: Header)
        ensures
            r == with_commitments_spec(
                self,
                state_diff_commitment,
                transaction_commitment,
                event_commitment,
                receipt_commitment,
            ),
    {
        Header {
            state_diff_commitment: Some(state_diff_commitment),
            transaction_commitment,
            event_commitment,
            receipt_commitment: Some(receipt_commitment),
            ..self
        }
    }
}

} // verus!
