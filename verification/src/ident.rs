//! Opaque identifiers: chains, validators, and blocks.
//!
//! Each identifier is a byte token. The monitoring logic only ever compares
//! identifiers for equality, so the tokens are held as plain byte vectors and
//! viewed as byte sequences.

use vstd::prelude::*;

verus! {

/// Compare two byte vectors for equality of their contents.
pub fn bytes_equal(a: &Vec<u8>, b: &Vec<u8>) -> (r: bool)
    ensures
        r == (a@ == b@),
{
    if a.len() != b.len() {
        return false;
    }
    let mut i: usize = 0;
    while i < a.len()
        invariant
            i <= a@.len(),
            a@.len() == b@.len(),
            forall|j: int| 0 <= j < i ==> a@[j] == b@[j],
        decreases a@.len() - i,
    {
        if a[i] != b[i] {
            return false;
        }
        i += 1;
    }
    proof {
        assert(a@ =~= b@);
    }
    true
}

/// Copy a byte vector.
pub fn bytes_clone(a: &Vec<u8>) -> (r: Vec<u8>)
    ensures
        r@ == a@,
{
    let mut r: Vec<u8> = Vec::new();
    let mut i: usize = 0;
    while i < a.len()
        invariant
            i <= a@.len(),
            r@ == a@.take(i as int),
        decreases a@.len() - i,
    {
        r.push(a[i]);
        proof {
            assert(r@ =~= a@.take(i as int + 1));
        }
        i += 1;
    }
    proof {
        assert(a@.take(a@.len() as int) =~= a@);
    }
    r
}

/// Opaque token identifying one monitored network.
#[derive(Debug)]
pub struct ChainId {
    /// The raw bytes of the token.
    pub bytes: Vec<u8>,
}

impl View for ChainId {
    type V = Seq<u8>;

    open spec fn view(&self) -> Seq<u8> {
        self.bytes@
    }
}

impl ChainId {
    /// Wrap a byte token as a chain identifier.
    pub fn new(bytes: Vec<u8>) -> (id: Self)
        ensures
            id@ == bytes@,
    {
        ChainId { bytes }
    }
}

impl PartialEq for ChainId {
    fn eq(&self, other: &Self) -> bool {
        bytes_equal(&self.bytes, &other.bytes)
    }
}

impl vstd::std_specs::cmp::PartialEqSpecImpl for ChainId {
    open spec fn obeys_eq_spec() -> bool {
        true
    }

    open spec fn eq_spec(&self, other: &Self) -> bool {
        self@ == other@
    }
}

impl Clone for ChainId {
    fn clone(&self) -> (r: Self)
        ensures
            r@ == self@,
    {
        ChainId { bytes: bytes_clone(&self.bytes) }
    }
}

/// Fixed-length opaque byte identifier of a validator's signing key.
#[derive(Debug)]
pub struct ValidatorId {
    /// The raw bytes of the identifier.
    pub bytes: Vec<u8>,
}

impl View for ValidatorId {
    type V = Seq<u8>;

    open spec fn view(&self) -> Seq<u8> {
        self.bytes@
    }
}

impl ValidatorId {
    /// Wrap raw key bytes as a validator identifier.
    pub fn new(bytes: Vec<u8>) -> (id: Self)
        ensures
            id@ == bytes@,
    {
        ValidatorId { bytes }
    }
}

impl PartialEq for ValidatorId {
    fn eq(&self, other: &Self) -> bool {
        bytes_equal(&self.bytes, &other.bytes)
    }
}

impl vstd::std_specs::cmp::PartialEqSpecImpl for ValidatorId {
    open spec fn obeys_eq_spec() -> bool {
        true
    }

    open spec fn eq_spec(&self, other: &Self) -> bool {
        self@ == other@
    }
}

impl Clone for ValidatorId {
    fn clone(&self) -> (r: Self)
        ensures
            r@ == self@,
    {
        ValidatorId { bytes: bytes_clone(&self.bytes) }
    }
}

/// Hash identifying one block.
#[derive(Debug)]
pub struct BlockId {
    /// The raw bytes of the hash.
    pub bytes: Vec<u8>,
}

impl View for BlockId {
    type V = Seq<u8>;

    open spec fn view(&self) -> Seq<u8> {
        self.bytes@
    }
}

impl BlockId {
    /// Wrap hash bytes as a block identifier.
    pub fn new(bytes: Vec<u8>) -> (id: Self)
        ensures
            id@ == bytes@,
    {
        BlockId { bytes }
    }
}

impl PartialEq for BlockId {
    fn eq(&self, other: &Self) -> bool {
        bytes_equal(&self.bytes, &other.bytes)
    }
}

impl vstd::std_specs::cmp::PartialEqSpecImpl for BlockId {
    open spec fn obeys_eq_spec() -> bool {
        true
    }

    open spec fn eq_spec(&self, other: &Self) -> bool {
        self@ == other@
    }
}

impl Clone for BlockId {
    fn clone(&self) -> (r: Self)
        ensures
            r@ == self@,
    {
        BlockId { bytes: bytes_clone(&self.bytes) }
    }
}

} // verus!
