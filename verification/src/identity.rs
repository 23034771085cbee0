use vstd::prelude::*;

verus! {

/// The identity of a party, an asset, a record or an authority: 32 bytes.
#[derive(Clone, Copy, Debug, PartialEq, Eq)]
pub struct Identity {
    pub bytes: [u8; 32],
}

impl View for Identity {
    type V = Seq<u8>;

    open spec fn view(&self) -> Seq<u8> {
        self.bytes@
    }
}

/// The bytes of the identity that stands in zeroed storage.
pub open spec fn blank_bytes() -> Seq<u8> {
    Seq::new(32, |i: int| 0u8)
}

/// The identity that has the bytes `bytes`.
pub open spec fn identity_of(bytes: Seq<u8>) -> Identity {
    choose|identity: Identity| identity@ == bytes
}

/// Two identities are the same value exactly when their bytes agree.
pub proof fn lemma_identity_by_bytes(a: Identity, b: Identity)
    ensures
        (a == b) <==> (a@ == b@),
{
    if a@ == b@ {
        assert(a.bytes =~= b.bytes);
    }
}

/// An identity is the one that has its bytes.
pub proof fn lemma_identity_of_its_bytes(identity: Identity)
    ensures
        identity_of(identity@) == identity,
{
    lemma_identity_by_bytes(identity_of(identity@), identity);
}

impl Identity {
    /// The identity that has the bytes `bytes`.
    pub fn new(bytes: [u8; 32]) -> (identity: Identity)
        ensures
            identity.bytes == bytes,
    {
        Identity { bytes }
    }

    /// The identity of all-zero bytes, which zeroed storage holds.
    pub fn blank() -> (identity: Identity)
        ensures
            identity@ == blank_bytes(),
    {
        let identity = Identity { bytes: [0u8; 32] };
        assert(identity@ =~= blank_bytes());
        identity
    }

    /// Whether `self` and `other` are the same identity.
    pub fn same(&self, other: &Identity) -> (equal: bool)
        ensures
            equal == (*self == *other),
    {
        let mut i: usize = 0;
        while i < 32
            invariant
                i <= 32,
                forall|k: int| 0 <= k < i ==> self.bytes[k] == other.bytes[k],
            decreases 32 - i,
        {
            if self.bytes[i] != other.bytes[i] {
                return false;
            }
            i += 1;
        }
        assert(self.bytes =~= other.bytes);
        true
    }

    /// The bytes, in order, as a seed for a derivation.
    pub fn to_seed(&self) -> (seed: Vec<u8>)
        ensures
            seed@ == self@,
    {
        let mut seed: Vec<u8> = Vec::new();
        let mut i: usize = 0;
        while i < 32
            invariant
                i <= 32,
                seed@ == self@.subrange(0, i as int),
            decreases 32 - i,
        {
            seed.push(self.bytes[i]);
            i += 1;
        }
        seed
    }
}

} // verus!
