//! Identifier types: 32-byte pool and token keys, and the normalized token
//! pair. A key is held as two 128-bit halves (`hi` carries the first sixteen
//! bytes, big-endian), so that byte order on keys is plain integer order on
//! `(hi, lo)`.

use vstd::prelude::*;

verus! {

/// A 32-byte identifier (pool address or token mint), as two big-endian halves.
#[derive(Clone, Copy, Debug, PartialEq, Eq, Hash, Structural)]
pub struct Key {
    pub hi: u128,
    pub lo: u128,
}

/// Byte order on keys: lexicographic on the big-endian halves.
pub open spec fn key_lt(a: Key, b: Key) -> bool {
    a.hi < b.hi || (a.hi == b.hi && a.lo < b.lo)
}

pub open spec fn key_le(a: Key, b: Key) -> bool {
    key_lt(a, b) || a == b
}

impl Key {
    pub open spec fn zero_spec() -> Key {
        Key { hi: 0, lo: 0 }
    }

    pub fn zero() -> (r: Key)
        ensures
            r == Key::zero_spec(),
    {
        Key { hi: 0, lo: 0 }
    }

    /// Strict byte order on keys.
    pub fn lt(&self, other: &Key) -> (r: bool)
        ensures
            r == key_lt(*self, *other),
    {
        self.hi < other.hi || (self.hi == other.hi && self.lo < other.lo)
    }
}

/// An unordered token pair, normalized so that `base` is the smaller key in
/// byte order. Equality on the normalized form identifies the market.
#[derive(Clone, Copy, Debug, PartialEq, Eq, Hash, Structural)]
pub struct TokenPair {
    pub base: Key,
    pub quote: Key,
}

/// A pair is normalized when its base does not exceed its quote in byte order.
pub open spec fn pair_normalized(p: TokenPair) -> bool {
    key_le(p.base, p.quote)
}

/// The normalized pair of two token keys.
pub open spec fn pair_of(a: Key, b: Key) -> TokenPair {
    if key_lt(b, a) {
        TokenPair { base: b, quote: a }
    } else {
        TokenPair { base: a, quote: b }
    }
}

impl TokenPair {
    /// Builds the normalized pair: the smaller key in byte order is `base`.
    pub fn new(token_a: Key, token_b: Key) -> (r: TokenPair)
        ensures
            r == pair_of(token_a, token_b),
            pair_normalized(r),
            (r.base == token_a && r.quote == token_b) || (r.base == token_b && r.quote
                == token_a),
    {
        if token_b.lt(&token_a) {
            TokenPair { base: token_b, quote: token_a }
        } else {
            TokenPair { base: token_a, quote: token_b }
        }
    }

    /// Whether `t` is one of the pair's two tokens.
    pub fn contains(&self, t: &Key) -> (r: bool)
        ensures
            r == (*t == self.base || *t == self.quote),
    {
        *t == self.base || *t == self.quote
    }
}

} // verus!
