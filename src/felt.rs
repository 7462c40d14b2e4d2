use vstd::prelude::*;

verus! {

/// The big-endian bytes of the Stark field prime `2^251 + 17 * 2^192 + 1`.
pub open spec fn prime_bytes() -> Seq<u8> {
    Seq::new(32, |i: int| if i == 0 { 8u8 } else if i == 7 { 0x11u8 } else if i == 31 { 1u8 } else { 0u8 })
}

/// Lexicographic order on byte strings of one length: for big-endian numbers it is the
/// order of their values.
pub open spec fn lex_lt(a: Seq<u8>, b: Seq<u8>) -> bool
    decreases a.len(),
{
    if a.len() == 0 || b.len() == 0 {
        false
    } else if a[0] != b[0] {
        a[0] < b[0]
    } else {
        lex_lt(a.drop_first(), b.drop_first())
    }
}

/// The big-endian bytes of a `u64`, padded to a field element.
pub open spec fn u64_felt_bytes(n: u64) -> Seq<u8> {
    Seq::new(32, |i: int| if i < 24 { 0u8 } else { ((n >> ((31 - i) * 8) as u64) & 0xff) as u8 })
}

/// An element of the Stark field, held as its 32 big-endian bytes.
#[derive(Clone, Copy, Debug)]
pub struct Felt {
    pub bytes: [u8; 32],
}

impl Felt {
    /// The value is below the field prime, so that each element has one encoding.
    pub open spec fn wf(&self) -> bool {
        lex_lt(self.bytes@, prime_bytes())
    }

    pub fn zero() -> (r: Felt)
        ensures
            r.wf(),
            r.bytes@ == u64_felt_bytes(0),
    {
        Felt::from_u64(0)
    }

    pub fn from_u64(n: u64) -> (r: Felt)
        ensures
            r.wf(),
            r.bytes@ == u64_felt_bytes(n),
    {
        let mut bytes: [u8; 32] = [0u8; 32];
        let mut i: usize = 24;
        while i < 32
            invariant
                24 <= i <= 32,
                forall|j: int| 0 <= j < 24 ==> bytes@[j] == 0u8,
                forall|j: int| 24 <= j < i ==> bytes@[j] == u64_felt_bytes(n)[j],
            decreases 32 - i,
        {
            let shift: u64 = ((31 - i) * 8) as u64;
            bytes[i] = ((n >> shift) & 0xff) as u8;
            i = i + 1;
        }
        let r = Felt { bytes };
        assert(r.bytes@ =~= u64_felt_bytes(n));
        assert(r.bytes@[0] == 0u8 && prime_bytes()[0] == 8u8);
        assert(lex_lt(r.bytes@, prime_bytes()));
        r
    }

    /// Builds an element from 32 big-endian bytes; `None` where they encode a value at or
    /// above the field prime.
    pub fn from_bytes_be(bytes: [u8; 32]) -> (r: Option<Felt>)
        ensures
            r is Some <==> lex_lt(bytes@, prime_bytes()),
            r matches Some(f) ==> f.bytes@ == bytes@,
    {
        let prime: [u8; 32] = [
            8, 0, 0, 0, 0, 0, 0, 0x11, 0, 0, 0, 0, 0, 0, 0, 0,
            0, 0, 0, 0, 0, 0, 0, 0, 0, 0, 0, 0, 0, 0, 0, 1,
        ];
        assert(prime@ =~= prime_bytes());
        let mut i: usize = 0;
        while i < 32
            invariant
                i <= 32,
                prime@ == prime_bytes(),
                forall|j: int| 0 <= j < i ==> bytes@[j] == prime@[j],
            decreases 32 - i,
        {
            if bytes[i] != prime[i] {
                proof { lemma_lex_lt_at(bytes@, prime@, i as int); }
                if bytes[i] < prime[i] {
                    return Some(Felt { bytes });
                } else {
                    return None;
                }
            }
            i = i + 1;
        }
        proof {
            assert(bytes@ =~= prime@);
            lemma_lex_lt_irreflexive(bytes@);
        }
        None
    }

    /// Two elements are equal exactly when their bytes are.
    pub fn equals(&self, other: &Felt) -> (r: bool)
        ensures
            r <==> self.bytes@ == other.bytes@,
    {
        let mut i: usize = 0;
        while i < 32
            invariant
                i <= 32,
                forall|j: int| 0 <= j < i ==> self.bytes@[j] == other.bytes@[j],
            decreases 32 - i,
        {
            if self.bytes[i] != other.bytes[i] {
                return false;
            }
            i = i + 1;
        }
        assert(self.bytes@ =~= other.bytes@);
        true
    }
}

impl PartialEq for Felt {
    fn eq(&self, other: &Felt) -> (r: bool) {
        self.equals(other)
    }
}

impl vstd::std_specs::cmp::PartialEqSpecImpl for Felt {
    open spec fn obeys_eq_spec() -> bool {
        true
    }

    open spec fn eq_spec(&self, other: &Felt) -> bool {
        self.bytes@ == other.bytes@
    }
}

impl Eq for Felt {}

/// Where two byte strings of one length agree before `i` and differ at `i`, that byte
/// decides their order.
pub proof fn lemma_lex_lt_at(a: Seq<u8>, b: Seq<u8>, i: int)
    requires
        a.len() == b.len(),
        0 <= i < a.len(),
        forall|j: int| 0 <= j < i ==> a[j] == b[j],
        a[i] != b[i],
    ensures
        lex_lt(a, b) <==> a[i] < b[i],
    decreases i,
{
    if i > 0 {
        lemma_lex_lt_at(a.drop_first(), b.drop_first(), i - 1);
    }
}

pub proof fn lemma_lex_lt_irreflexive(a: Seq<u8>)
    ensures
        !lex_lt(a, a),
    decreases a.len(),
{
    if a.len() > 0 {
        lemma_lex_lt_irreflexive(a.drop_first());
    }
}

} // verus!
