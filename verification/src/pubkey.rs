//! Identities of the parties and of the records: 32-byte public keys.

use vstd::prelude::*;
use vstd::std_specs::cmp::PartialEqSpecImpl;

verus! {

/// The identity of an account holder, a vault, a record or a program.
#[derive(Clone, Copy, Debug)]
pub struct Pubkey {
    pub bytes: [u8; 32],
}

impl View for Pubkey {
    type V = Seq<u8>;

    open spec fn view(&self) -> Seq<u8> {
        self.bytes@
    }
}

impl Pubkey {
    /// The key that holds exactly the given bytes.
    pub fn new_from_array(bytes: [u8; 32]) -> (key: Pubkey)
        ensures
            key.bytes == bytes,
            key@ == bytes@,
    {
        Pubkey { bytes }
    }

    /// The key that 32 bytes at `offset` of a byte string spell.
    pub fn from_bytes_at(bytes: &Vec<u8>, offset: usize) -> (key: Pubkey)
        requires
            offset + 32 <= bytes@.len(),
        ensures
            key@ == bytes@.subrange(offset as int, offset + 32),
    {
        let mut array: [u8; 32] = [0u8; 32];
        let len = bytes.len();
        let mut i: usize = 0;
        while i < 32
            invariant
                i <= 32,
                offset + 32 <= len,
                len == bytes@.len(),
                forall|j: int| 0 <= j < i ==> array@[j] == bytes@[offset + j],
            decreases 32 - i,
        {
            array[i] = bytes[offset + i];
            i += 1;
        }
        assert(array@ =~= bytes@.subrange(offset as int, offset + 32));
        Pubkey { bytes: array }
    }

    /// The 32 bytes of the key.
    pub fn to_bytes(&self) -> (bytes: [u8; 32])
        ensures
            bytes == self.bytes,
    {
        self.bytes
    }
}

/// Whether two 32-byte arrays hold the same bytes.
pub fn bytes32_eq(a: &[u8; 32], b: &[u8; 32]) -> (same: bool)
    ensures
        same == (a@ == b@),
        same == (*a == *b),
{
    let mut i: usize = 0;
    while i < 32
        invariant
            i <= 32,
            forall|j: int| 0 <= j < i ==> a@[j] == b@[j],
        decreases 32 - i,
    {
        if a[i] != b[i] {
            return false;
        }
        i += 1;
    }
    assert(a@ =~= b@);
    assert(*a =~= *b);
    true
}

impl PartialEq for Pubkey {
    fn eq(&self, other: &Pubkey) -> (same: bool) {
        bytes32_eq(&self.bytes, &other.bytes)
    }
}

impl Eq for Pubkey {}

impl PartialEqSpecImpl for Pubkey {
    open spec fn obeys_eq_spec() -> bool {
        true
    }

    open spec fn eq_spec(&self, other: &Pubkey) -> bool {
        *self == *other
    }
}

/// Two keys are one identity exactly when their bytes agree.
pub proof fn lemma_key_eq_by_bytes(a: Pubkey, b: Pubkey)
    ensures
        (a == b) <==> (a@ == b@),
{
    if a@ == b@ {
        assert(a.bytes =~= b.bytes);
    }
}

} // verus!
