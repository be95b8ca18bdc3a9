//! Content kinds: types whose values can be compared and digested by content.
use vstd::prelude::*;
use vstd::string::*;
use vstd::utf8::encode_utf8;

verus! {

/// A kind of value that can be deduplicated by its content.
///
/// The content of a value is its view. `same_content` decides whether two
/// values have the same view; `digest` computes a `u64` that depends on the
/// view alone, so that equal contents always have equal digests.
pub trait Content: View {
    /// The digest of a content.
    spec fn digest_of(v: Self::V) -> u64;

    fn same_content(&self, other: &Self) -> (r: bool)
        ensures
            r == (self@ == other@),
    ;

    fn digest(&self) -> (d: u64)
        ensures
            d == Self::digest_of(self@),
    ;
}

pub const FNV_OFFSET: u64 = 0xcbf29ce484222325;

pub const FNV_PRIME: u64 = 0x100000001b3;

/// The FNV-1a digest of `bytes`.
pub open spec fn fnv1a(bytes: Seq<u8>) -> u64
    decreases bytes.len(),
{
    if bytes.len() == 0 {
        FNV_OFFSET
    } else {
        (fnv1a(bytes.drop_last()) ^ (bytes.last() as u64)).wrapping_mul(FNV_PRIME)
    }
}

/// Mixes two digests into one.
pub open spec fn mix(a: u64, b: u64) -> u64 {
    a.wrapping_mul(FNV_PRIME) ^ b
}

/// Computes the FNV-1a digest of `bytes`.
pub fn digest_bytes(bytes: &[u8]) -> (d: u64)
    ensures
        d == fnv1a(bytes@),
{
    let mut h: u64 = FNV_OFFSET;
    let mut i: usize = 0;
    while i < bytes.len()
        invariant
            i <= bytes@.len(),
            h == fnv1a(bytes@.take(i as int)),
        decreases bytes@.len() - i,
    {
        assert(bytes@.take(i + 1).drop_last() =~= bytes@.take(i as int));
        h = (h ^ (bytes[i] as u64)).wrapping_mul(FNV_PRIME);
        i = i + 1;
    }
    assert(bytes@.take(i as int) =~= bytes@);
    h
}

/// Relies on `str`'s `PartialEq`, which compares the two strings' bytes:
/// for valid UTF-8 that is the same as comparing their characters.
pub assume_specification[ <str as PartialEq>::eq ](a: &str, b: &str) -> (r: bool)
    ensures
        r == (a@ == b@),
;

impl Content for str {
    open spec fn digest_of(v: Seq<char>) -> u64 {
        fnv1a(encode_utf8(v))
    }

    fn same_content(&self, other: &Self) -> (r: bool) {
        <str as PartialEq>::eq(self, other)
    }

    fn digest(&self) -> (d: u64) {
        digest_bytes(self.as_bytes())
    }
}

impl Content for String {
    open spec fn digest_of(v: Seq<char>) -> u64 {
        fnv1a(encode_utf8(v))
    }

    fn same_content(&self, other: &Self) -> (r: bool) {
        <String as PartialEq>::eq(self, other)
    }

    fn digest(&self) -> (d: u64) {
        digest_bytes(self.as_str().as_bytes())
    }
}

impl Content for u64 {
    open spec fn digest_of(v: u64) -> u64 {
        v
    }

    fn same_content(&self, other: &Self) -> (r: bool) {
        *self == *other
    }

    fn digest(&self) -> (d: u64) {
        *self
    }
}

impl Content for u128 {
    open spec fn digest_of(v: u128) -> u64 {
        mix(v as u64, (v >> 64u32) as u64)
    }

    fn same_content(&self, other: &Self) -> (r: bool) {
        *self == *other
    }

    fn digest(&self) -> (d: u64) {
        (*self as u64).wrapping_mul(FNV_PRIME) ^ ((*self >> 64u32) as u64)
    }
}

impl Content for i64 {
    open spec fn digest_of(v: i64) -> u64 {
        v as u64
    }

    fn same_content(&self, other: &Self) -> (r: bool) {
        *self == *other
    }

    fn digest(&self) -> (d: u64) {
        *self as u64
    }
}

impl Content for i128 {
    open spec fn digest_of(v: i128) -> u64 {
        mix(v as u64, ((v as u128) >> 64u32) as u64)
    }

    fn same_content(&self, other: &Self) -> (r: bool) {
        *self == *other
    }

    fn digest(&self) -> (d: u64) {
        (*self as u64).wrapping_mul(FNV_PRIME) ^ (((*self as u128) >> 64u32) as u64)
    }
}

/// A record of two fields has the content of both.
impl<A: Content, B: Content> Content for (A, B) {
    open spec fn digest_of(v: (A::V, B::V)) -> u64 {
        mix(A::digest_of(v.0), B::digest_of(v.1))
    }

    fn same_content(&self, other: &Self) -> (r: bool) {
        self.0.same_content(&other.0) && self.1.same_content(&other.1)
    }

    fn digest(&self) -> (d: u64) {
        self.0.digest().wrapping_mul(FNV_PRIME) ^ self.1.digest()
    }
}

} // verus!
