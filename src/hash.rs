use vstd::prelude::*;
use sha3::Digest;

verus! {

/// Number of bytes in a hash value.
pub const HASH_LENGTH: usize = 32;

/// A 32-byte content hash, used to identify blocks, headers and transactions.
#[derive(Clone, Copy, Debug)]
pub struct HashValue {
    pub bytes: [u8; 32],
}

/// The SHA3-256 digest of a byte string.
pub uninterp spec fn sha3_256_of(data: Seq<u8>) -> Seq<u8>;

/// Relies on sha3's `Sha3_256::digest`: a 32-byte digest that depends on the input alone.
#[verifier::external_body]
fn sha3_256(data: &Vec<u8>) -> (r: [u8; 32])
    ensures
        r@ == sha3_256_of(data@),
{
    sha3::Sha3_256::digest(data.as_slice()).into()
}

impl HashValue {
    pub open spec fn view(&self) -> Seq<u8> {
        self.bytes@
    }

    /// The all-zero hash.
    pub fn zero() -> (r: HashValue)
        ensures
            r.bytes@ == Seq::new(32, |i: int| 0u8),
    {
        let r = HashValue { bytes: [0u8; 32] };
        assert(r.bytes@ =~= Seq::new(32, |i: int| 0u8));
        r
    }

    /// The SHA3-256 hash of `data`.
    pub fn sha3_256_of(data: &Vec<u8>) -> (r: HashValue)
        ensures
            r.bytes@ == sha3_256_of(data@),
    {
        HashValue { bytes: sha3_256(data) }
    }

    /// Copies the hash into a fresh byte vector.
    pub fn to_vec(&self) -> (r: Vec<u8>)
        ensures
            r@ == self.bytes@,
    {
        let mut r: Vec<u8> = Vec::new();
        let mut i: usize = 0;
        while i < 32
            invariant
                i <= 32,
                r@ == self.bytes@.subrange(0, i as int),
            decreases 32 - i,
        {
            r.push(self.bytes[i]);
            i = i + 1;
        }
        assert(r@ =~= self.bytes@);
        r
    }

    /// Reads a hash from exactly 32 bytes; any other length is refused.
    pub fn from_slice(data: &[u8]) -> (r: Option<HashValue>)
        ensures
            r is Some <==> data@.len() == 32,
            r matches Some(h) ==> h.bytes@ == data@,
    {
        if data.len() != 32 {
            return None;
        }
        let mut bytes = [0u8; 32];
        let mut i: usize = 0;
        while i < 32
            invariant
                i <= 32,
                data@.len() == 32,
                bytes@.len() == 32,
                forall|j: int| 0 <= j < i ==> bytes@[j] == data@[j],
            decreases 32 - i,
        {
            bytes[i] = data[i];
            i = i + 1;
        }
        assert(bytes@ =~= data@);
        Some(HashValue { bytes })
    }

    /// Whether two hashes hold the same bytes.
    pub fn equals(&self, other: &HashValue) -> (r: bool)
        ensures
            r == (self@ == other@),
    {
        let mut i: usize = 0;
        while i < 32
            invariant
                i <= 32,
                forall|j: int| 0 <= j < i ==> self@[j] == other@[j],
            decreases 32 - i,
        {
            if self.bytes[i] != other.bytes[i] {
                return false;
            }
            i = i + 1;
        }
        assert(self@ =~= other@);
        true
    }
}

impl PartialEq for HashValue {
    fn eq(&self, other: &HashValue) -> (r: bool) {
        self.equals(other)
    }
}

impl Eq for HashValue {
}

impl vstd::std_specs::cmp::PartialEqSpecImpl for HashValue {
    open spec fn obeys_eq_spec() -> bool {
        true
    }

    open spec fn eq_spec(&self, other: &HashValue) -> bool {
        self@ == other@
    }
}

} // verus!
