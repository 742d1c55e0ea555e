//! Account addresses, hashes and signatures: fixed runs of bytes.
use crate::base58::{base58_encode, base58_encoded, law_decoding_undoes_encoding, named};
use vstd::prelude::*;

verus! {

/// An account address.
#[derive(Clone, Copy, Debug, PartialEq, Eq, Hash)]
pub struct Pubkey {
    pub bytes: [u8; 32],
}

/// An entry hash, which names a moment of the ledger.
#[derive(Clone, Copy, Debug, PartialEq, Eq, Hash)]
pub struct Hash {
    pub bytes: [u8; 32],
}

/// A transaction signature.
#[derive(Clone, Copy, Debug, PartialEq, Eq, Hash)]
pub struct Signature {
    pub bytes: [u8; 64],
}

impl View for Pubkey {
    type V = Seq<u8>;

    open spec fn view(&self) -> Seq<u8> {
        self.bytes@
    }
}

impl View for Hash {
    type V = Seq<u8>;

    open spec fn view(&self) -> Seq<u8> {
        self.bytes@
    }
}

impl View for Signature {
    type V = Seq<u8>;

    open spec fn view(&self) -> Seq<u8> {
        self.bytes@
    }
}

/// The number of bytes of a `Pubkey`.
pub const PUBKEY_BYTES: usize = 32;

/// The number of bytes of a `Signature`.
pub const SIGNATURE_BYTES: usize = 64;

impl Default for Pubkey {
    /// The address of all zeros.
    fn default() -> (r: Self)
        ensures
            r@ == Seq::new(32, |i: int| 0u8),
    {
        let r = Pubkey { bytes: [0u8; 32] };
        proof {
            assert(r@ =~= Seq::new(32, |i: int| 0u8));
        }
        r
    }
}

impl Pubkey {
    /// The address made of the given 32 bytes.
    pub fn new(bytes: &[u8]) -> (r: Self)
        requires
            bytes@.len() == PUBKEY_BYTES,
        ensures
            r@ == bytes@,
    {
        let mut copy: [u8; 32] = [0u8; 32];
        let mut i: usize = 0;
        while i < 32
            invariant
                i <= 32,
                bytes@.len() == 32,
                forall|j: int| 0 <= j < i ==> copy@[j] == bytes@[j],
            decreases 32 - i,
        {
            copy[i] = bytes[i];
            i += 1;
        }
        let r = Pubkey { bytes: copy };
        proof {
            assert(r@ =~= bytes@);
        }
        r
    }

    /// Whether both addresses have the same bytes.
    pub fn same(&self, other: &Pubkey) -> (r: bool)
        ensures
            r == (self@ == other@),
    {
        let mut i: usize = 0;
        while i < 32
            invariant
                i <= 32,
                forall|j: int| 0 <= j < i ==> self@[j] == other@[j],
            decreases 32 - i,
        {
            if self.bytes[i] != other.bytes[i] {
                proof {
                    assert(self@[i as int] != other@[i as int]);
                }
                return false;
            }
            i += 1;
        }
        proof {
            assert(self@ =~= other@);
        }
        true
    }
}

impl Signature {
    /// The signature made of the given 64 bytes.
    pub fn new(bytes: &[u8]) -> (r: Self)
        requires
            bytes@.len() == SIGNATURE_BYTES,
        ensures
            r@ == bytes@,
    {
        let mut copy: [u8; 64] = [0u8; 64];
        let mut i: usize = 0;
        while i < 64
            invariant
                i <= 64,
                bytes@.len() == 64,
                forall|j: int| 0 <= j < i ==> copy@[j] == bytes@[j],
            decreases 64 - i,
        {
            copy[i] = bytes[i];
            i += 1;
        }
        let r = Signature { bytes: copy };
        proof {
            assert(r@ =~= bytes@);
        }
        r
    }
}

impl Pubkey {
    /// The address as base58 text, which names it.
    pub fn to_string(&self) -> (r: String)
        ensures
            r@ == base58_encoded(self@),
            named(r@, 32) == Some(self@),
    {
        proof {
            law_decoding_undoes_encoding(self@);
        }
        base58_encode(&self.bytes)
    }
}

impl Hash {
    /// The hash as base58 text, which names it.
    pub fn to_string(&self) -> (r: String)
        ensures
            r@ == base58_encoded(self@),
            named(r@, 32) == Some(self@),
    {
        proof {
            law_decoding_undoes_encoding(self@);
        }
        base58_encode(&self.bytes)
    }
}

impl Signature {
    /// The signature as base58 text, which names it.
    pub fn to_string(&self) -> (r: String)
        ensures
            r@ == base58_encoded(self@),
            named(r@, 64) == Some(self@),
    {
        proof {
            law_decoding_undoes_encoding(self@);
        }
        base58_encode(&self.bytes)
    }
}

/// Two addresses with the same bytes are the same address.
pub proof fn lemma_pubkey_determined(a: Pubkey, b: Pubkey)
    requires
        a@ == b@,
    ensures
        a == b,
{
    assert forall|i: int| 0 <= i < 32 implies a.bytes[i] == b.bytes[i] by {
        assert(a@[i] == b@[i]);
    }
    assert(a.bytes =~= b.bytes);
}

} // verus!
