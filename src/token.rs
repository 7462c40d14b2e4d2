use vstd::prelude::*;

verus! {

pub open spec fn is_digit(c: u8) -> bool {
    48 <= c <= 57
}

pub open spec fn all_digits(s: Seq<u8>) -> bool {
    forall|i: int| 0 <= i < s.len() ==> is_digit(#[trigger] s[i])
}

/// The number that a string of decimal digits writes.
pub open spec fn dec_value(s: Seq<u8>) -> nat
    decreases s.len(),
{
    if s.len() == 0 {
        0
    } else {
        dec_value(s.drop_last()) * 10 + (s.last() - 48) as nat
    }
}

/// The decimal digits of `n`, without leading zeros.
pub open spec fn dec_digits(n: nat) -> Seq<u8>
    decreases n,
{
    if n < 10 {
        seq![(n + 48) as u8]
    } else {
        dec_digits(n / 10).push(((n % 10) + 48) as u8)
    }
}

pub proof fn lemma_dec_round_trip(n: nat)
    ensures
        all_digits(dec_digits(n)),
        dec_digits(n).len() > 0,
        dec_value(dec_digits(n)) == n,
    decreases n,
{
    if n >= 10 {
        lemma_dec_round_trip(n / 10);
        let d = dec_digits(n);
        assert(d.drop_last() =~= dec_digits(n / 10));
        assert(d.last() == ((n % 10) + 48) as u8);
        assert(d.last() as int == n % 10 + 48);
        vstd::arithmetic::div_mod::lemma_fundamental_div_mod(n as int, 10);
        assert(dec_value(d) == dec_value(d.drop_last()) * 10 + (d.last() - 48) as nat);
    } else {
        let d = dec_digits(n);
        assert(d.drop_last() =~= Seq::<u8>::empty());
        assert(d.last() as int == n + 48);
        assert(dec_value(d) == dec_value(d.drop_last()) * 10 + (d.last() - 48) as nat);
    }
}

/// A position in the stream of matching events: the event `event_n` of block `block_n`.
#[derive(Clone, Copy, Debug, PartialEq, Eq, Structural)]
pub struct ContinuationToken {
    pub block_n: u64,
    pub event_n: u64,
}

/// The text of a token: `block_n-event_n` in decimal.
pub open spec fn token_text(t: ContinuationToken) -> Seq<u8> {
    dec_digits(t.block_n as nat).push(45u8) + dec_digits(t.event_n as nat)
}

/// The token that a text writes, if any: two non-empty runs of decimal digits around a
/// single `-`, each a number that fits in a `u64`.
pub open spec fn parse_token(s: Seq<u8>) -> Option<ContinuationToken> {
    if exists|k: int| 0 <= k < s.len() && s[k] == 45u8 && all_digits(s.subrange(0, k)) && all_digits(
        s.subrange(k + 1, s.len() as int),
    ) {
        let k = choose|k: int|
            0 <= k < s.len() && s[k] == 45u8 && all_digits(s.subrange(0, k)) && all_digits(
                s.subrange(k + 1, s.len() as int),
            );
        let a = s.subrange(0, k);
        let b = s.subrange(k + 1, s.len() as int);
        if a.len() > 0 && b.len() > 0 && dec_value(a) <= u64::MAX && dec_value(b) <= u64::MAX {
            Some(ContinuationToken { block_n: dec_value(a) as u64, event_n: dec_value(b) as u64 })
        } else {
            None
        }
    } else {
        None
    }
}

pub(crate) fn push_dec(out: &mut Vec<u8>, n: u64)
    ensures
        final(out)@ == old(out)@ + dec_digits(n as nat),
    decreases n,
{
    if n >= 10 {
        push_dec(out, n / 10);
    }
    out.push(((n % 10) as u8) + 48);
    proof {
        if n >= 10 {
            assert(dec_digits(n as nat) == dec_digits((n / 10) as nat).push(((n % 10) + 48) as u8));
        }
    }
    assert(out@ =~= old(out)@ + dec_digits(n as nat));
}

/// Reads the digits `s[from..to]` as a number; `None` where one is not a digit or the
/// number does not fit in a `u64`.
pub(crate) fn parse_dec(s: &[u8], from: usize, to: usize) -> (r: Option<u64>)
    requires
        from <= to <= s@.len(),
    ensures
        r is Some <==> (all_digits(s@.subrange(from as int, to as int)) && dec_value(
            s@.subrange(from as int, to as int),
        ) <= u64::MAX),
        r matches Some(v) ==> v == dec_value(s@.subrange(from as int, to as int)),
{
    let mut v: u64 = 0;
    let mut i: usize = from;
    while i < to
        invariant
            from <= i <= to <= s@.len(),
            all_digits(s@.subrange(from as int, i as int)),
            v == dec_value(s@.subrange(from as int, i as int)),
        decreases to - i,
    {
        let c = s[i];
        assert(s@.subrange(from as int, i + 1).drop_last() =~= s@.subrange(from as int, i as int));
        if c < 48 || c > 57 {
            assert(!is_digit(s@.subrange(from as int, to as int)[i - from]));
            return None;
        }
        let d = (c - 48) as u64;
        if v > (u64::MAX - d) / 10 {
            proof {
                let whole = s@.subrange(from as int, to as int);
                assert(v * 10 + d > u64::MAX) by (nonlinear_arith)
                    requires
                        v > (u64::MAX - d) / 10,
                        d <= 9,
                ;
                assert(dec_value(s@.subrange(from as int, i + 1)) == v * 10 + d);
                if all_digits(whole) {
                    lemma_dec_prefix_bound(whole, (i + 1 - from) as int);
                    assert(whole.subrange(0, (i + 1 - from) as int) =~= s@.subrange(from as int, i + 1));
                }
            }
            return None;
        }
        v = v * 10 + d;
        i = i + 1;
        assert(all_digits(s@.subrange(from as int, i as int)));
    }
    Some(v)
}

/// A number written with more digits is at least the number its prefix writes.
proof fn lemma_dec_prefix_bound(s: Seq<u8>, k: int)
    requires
        0 <= k <= s.len(),
        all_digits(s),
    ensures
        dec_value(s.subrange(0, k)) <= dec_value(s),
    decreases s.len() - k,
{
    if k < s.len() {
        lemma_dec_prefix_bound(s, k + 1);
        assert(s.subrange(0, k + 1).drop_last() =~= s.subrange(0, k));
    } else {
        assert(s.subrange(0, k) =~= s);
    }
}

impl ContinuationToken {
    /// The text of the token.
    pub fn to_bytes(&self) -> (r: Vec<u8>)
        ensures
            r@ == token_text(*self),
    {
        let mut out: Vec<u8> = Vec::new();
        push_dec(&mut out, self.block_n);
        out.push(45);
        push_dec(&mut out, self.event_n);
        assert(out@ =~= token_text(*self));
        out
    }

    /// Reads a token from its text.
    pub fn parse(s: &[u8]) -> (r: Option<ContinuationToken>)
        ensures
            r == parse_token(s@),
    {
        let mut k: usize = 0;
        while k < s.len() && s[k] != 45
            invariant
                k <= s@.len(),
                forall|j: int| 0 <= j < k ==> s@[j] != 45u8,
            decreases s@.len() - k,
        {
            k = k + 1;
        }
        if k == s.len() {
            proof {
                if exists|k2: int| 0 <= k2 < s@.len() && s@[k2] == 45u8 && all_digits(s@.subrange(0, k2))
                    && all_digits(s@.subrange(k2 + 1, s@.len() as int)) {
                    let k2 = choose|k2: int|
                        0 <= k2 < s@.len() && s@[k2] == 45u8 && all_digits(s@.subrange(0, k2)) && all_digits(
                            s@.subrange(k2 + 1, s@.len() as int),
                        );
                    assert(s@[k2] != 45u8);
                }
            }
            return None;
        }
        proof { lemma_dash_unique(s@, k as int); }
        if k == 0 || k + 1 == s.len() {
            return None;
        }
        let a = parse_dec(s, 0, k);
        let b = parse_dec(s, k + 1, s.len());
        match (a, b) {
            (Some(x), Some(y)) => Some(ContinuationToken { block_n: x, event_n: y }),
            _ => None,
        }
    }
}

/// Where the digits before `k` are free of dashes and `s[k]` is one, the split of
/// `parse_token` is at `k`.
proof fn lemma_dash_unique(s: Seq<u8>, k: int)
    requires
        0 <= k < s.len(),
        s[k] == 45u8,
        forall|j: int| 0 <= j < k ==> s[j] != 45u8,
    ensures
        forall|k2: int|
            0 <= k2 < s.len() && s[k2] == 45u8 && all_digits(s.subrange(0, k2)) && all_digits(
                s.subrange(k2 + 1, s.len() as int),
            ) ==> k2 == k,
{
    assert forall|k2: int|
        0 <= k2 < s.len() && s[k2] == 45u8 && all_digits(s.subrange(0, k2)) && all_digits(
            s.subrange(k2 + 1, s.len() as int),
        ) implies k2 == k by {
        if k2 > k {
            assert(s.subrange(0, k2)[k] == 45u8);
            assert(!is_digit(45u8));
        } else if k2 < k {
            assert(s[k2] != 45u8);
        }
    }
}

/// Writing a token and reading the text back gives the same token.
pub proof fn lemma_token_round_trip(t: ContinuationToken)
    ensures
        parse_token(token_text(t)) == Some(t),
{
    let a = dec_digits(t.block_n as nat);
    let b = dec_digits(t.event_n as nat);
    lemma_dec_round_trip(t.block_n as nat);
    lemma_dec_round_trip(t.event_n as nat);
    let s = token_text(t);
    let k = a.len() as int;
    assert(s.subrange(0, k) =~= a);
    assert(s.subrange(k + 1, s.len() as int) =~= b);
    assert(s[k] == 45u8);
    assert forall|j: int| 0 <= j < k implies s[j] != 45u8 by {
        assert(s[j] == a[j]);
        assert(is_digit(a[j]));
    }
    lemma_dash_unique(s, k);
}

} // verus!
