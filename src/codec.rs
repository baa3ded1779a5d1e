use vstd::prelude::*;
use std::marker::PhantomData;
use crate::hash::HashValue;
use crate::storage::{ColumnView, KVStore, StorageError, WriteBatch, apply_ops, batch_valid, batch_view, keys_listed};

verus! {

/// A type stored as a key.
pub trait KeyCodec: Sized {
    /// The bytes that stand for the key.
    spec fn key_bytes(&self) -> Seq<u8>;

    /// Whether `data` decodes to a key.
    spec fn accepts_key(data: Seq<u8>) -> bool;

    fn encode_key(&self) -> (r: Result<Vec<u8>, StorageError>)
        ensures
            r matches Ok(b) && b@ == self.key_bytes(),
    ;

    fn decode_key(data: &[u8]) -> (r: Result<Self, StorageError>)
        ensures
            r is Ok <==> Self::accepts_key(data@),
            r matches Ok(k) ==> k.key_bytes() == data@,
            r matches Err(e) ==> e == StorageError::Codec,
    ;

    /// The encoding of a key is accepted.
    proof fn lemma_key_encoding_accepted(k: Self)
        ensures
            Self::accepts_key(k.key_bytes()),
    ;

    /// The bytes of a key determine it.
    proof fn lemma_key_injective(a: Self, b: Self)
        requires
            a.key_bytes() == b.key_bytes(),
        ensures
            a == b,
    ;
}

/// A type stored as a value.
pub trait ValueCodec: Sized {
    /// The bytes that stand for the value.
    spec fn value_bytes(&self) -> Seq<u8>;

    /// Whether `data` decodes to a value.
    spec fn accepts_value(data: Seq<u8>) -> bool;

    fn encode_value(&self) -> (r: Result<Vec<u8>, StorageError>)
        ensures
            r matches Ok(b) && b@ == self.value_bytes(),
    ;

    fn decode_value(data: &[u8]) -> (r: Result<Self, StorageError>)
        ensures
            r is Ok <==> Self::accepts_value(data@),
            r matches Ok(v) ==> v.value_bytes() == data@,
            r matches Err(e) ==> e == StorageError::Codec,
    ;

    /// The encoding of a value is accepted.
    proof fn lemma_value_encoding_accepted(v: Self)
        ensures
            Self::accepts_value(v.value_bytes()),
    ;

    /// The bytes of a value determine it.
    proof fn lemma_value_injective(a: Self, b: Self)
        requires
            a.value_bytes() == b.value_bytes(),
        ensures
            a == b,
    ;
}

/// A namespace of typed keys and values over a byte store.
pub struct CodecStorage<K: KeyCodec, V: ValueCodec, S: KVStore> {
    store: S,
    k: PhantomData<K>,
    v: PhantomData<V>,
}

impl<K: KeyCodec, V: ValueCodec, S: KVStore> CodecStorage<K, V, S> {
    pub closed spec fn wf(&self) -> bool {
        self.store.kv_wf()
    }

    /// The stored bytes, by key bytes.
    pub closed spec fn view(&self) -> ColumnView {
        self.store.kv_view()
    }

    /// What counting, listing and presence go by.
    pub closed spec fn listed(&self) -> ColumnView {
        self.store.kv_listed()
    }

    pub closed spec fn has_cache(&self) -> bool {
        self.store.kv_has_cache()
    }

    pub fn new(store: S) -> (r: Self)
        requires
            store.kv_wf(),
        ensures
            r.wf(),
            r.view() == store.kv_view(),
            r.listed() == store.kv_listed(),
            r.has_cache() == store.kv_has_cache(),
    {
        CodecStorage { store, k: PhantomData, v: PhantomData }
    }

    /// Reads the value of `key`; stored bytes that do not decode give `StorageError::Codec`.
    pub fn get(&self, key: K) -> (r: Result<Option<V>, StorageError>)
        requires
            self.wf(),
        ensures
            r matches Ok(None) ==> !self.view().contains_key(key.key_bytes()),
            r matches Ok(Some(v)) ==> self.view().contains_key(key.key_bytes())
                && v.value_bytes() == self.view()[key.key_bytes()],
            r matches Err(e) ==> e == StorageError::Codec || e == StorageError::Backend,
            self.view().contains_key(key.key_bytes()) && !V::accepts_value(self.view()[key.key_bytes()])
                ==> r == Err::<Option<V>, StorageError>(StorageError::Codec) || r == Err::<Option<V>, StorageError>(StorageError::Backend),
            self.has_cache() && self.listed().contains_key(key.key_bytes()) && self.view().contains_key(key.key_bytes())
                && !V::accepts_value(self.view()[key.key_bytes()]) ==> r == Err::<Option<V>, StorageError>(StorageError::Codec),
            self.has_cache() && self.listed().contains_key(key.key_bytes()) && self.view().contains_key(key.key_bytes())
                && V::accepts_value(self.view()[key.key_bytes()]) ==> r is Ok,
    {
        let kb = key.encode_key()?;
        match self.store.get(kb.as_slice())? {
            Some(v) => Ok(Some(V::decode_value(v.as_slice())?)),
            None => Ok(None),
        }
    }

    pub fn put(&mut self, key: K, value: V) -> (r: Result<(), StorageError>)
        requires
            old(self).wf(),
        ensures
            final(self).wf(),
            key.key_bytes().len() == 0 ==> r is Err,
            r is Ok ==> final(self).view() == old(self).view().insert(key.key_bytes(), value.value_bytes())
                && final(self).listed() == old(self).listed().insert(key.key_bytes(), value.value_bytes()),
            r is Err ==> final(self).view() == old(self).view() && final(self).listed() == old(self).listed(),
    {
        let kb = key.encode_key()?;
        let vb = value.encode_value()?;
        self.store.put(kb, vb)
    }

    pub fn contains_key(&self, key: K) -> (r: Result<bool, StorageError>)
        requires
            self.wf(),
        ensures
            r matches Ok(b) ==> b == self.listed().contains_key(key.key_bytes()),
            self.has_cache() ==> r is Ok,
    {
        let kb = key.encode_key()?;
        self.store.contains_key(kb)
    }

    pub fn remove(&mut self, key: K) -> (r: Result<(), StorageError>)
        requires
            old(self).wf(),
        ensures
            final(self).wf(),
            r is Ok ==> final(self).view() == old(self).view().remove(key.key_bytes())
                && final(self).listed() == old(self).listed().remove(key.key_bytes()),
            r is Err ==> final(self).view() == old(self).view() && final(self).listed() == old(self).listed(),
    {
        let kb = key.encode_key()?;
        self.store.remove(kb)
    }

    /// Applies all of `batch`, or none of it.
    pub fn write_batch(&mut self, batch: WriteBatch) -> (r: Result<(), StorageError>)
        requires
            old(self).wf(),
        ensures
            final(self).wf(),
            !batch_valid(batch_view(batch)) ==> r == Err::<(), StorageError>(StorageError::EmptyKey),
            r is Ok ==> final(self).view() == apply_ops(old(self).view(), batch_view(batch))
                && final(self).listed() == apply_ops(old(self).listed(), batch_view(batch)),
            r is Err ==> final(self).view() == old(self).view() && final(self).listed() == old(self).listed(),
    {
        self.store.write_batch(batch)
    }

    pub fn get_len(&self) -> (r: Result<u64, StorageError>)
        requires
            self.wf(),
        ensures
            r matches Ok(n) ==> n == self.listed().dom().len(),
            self.has_cache() ==> r is Ok,
    {
        self.store.get_len()
    }

    pub fn keys(&self) -> (r: Result<Vec<Vec<u8>>, StorageError>)
        requires
            self.wf(),
        ensures
            r matches Ok(ks) ==> keys_listed(ks@, self.listed()),
            self.has_cache() ==> r is Ok,
    {
        self.store.keys()
    }
}

impl KeyCodec for HashValue {
    open spec fn key_bytes(&self) -> Seq<u8> {
        self@
    }

    open spec fn accepts_key(data: Seq<u8>) -> bool {
        data.len() == 32
    }

    fn encode_key(&self) -> (r: Result<Vec<u8>, StorageError>) {
        Ok(self.to_vec())
    }

    fn decode_key(data: &[u8]) -> (r: Result<Self, StorageError>) {
        match HashValue::from_slice(data) {
            Some(h) => Ok(h),
            None => Err(StorageError::Codec),
        }
    }

    proof fn lemma_key_encoding_accepted(k: Self) {
    }

    proof fn lemma_key_injective(a: Self, b: Self) {
        lemma_same_bytes_same_hash(a, b);
    }
}

impl ValueCodec for HashValue {
    open spec fn value_bytes(&self) -> Seq<u8> {
        self@
    }

    open spec fn accepts_value(data: Seq<u8>) -> bool {
        data.len() == 32
    }

    fn encode_value(&self) -> (r: Result<Vec<u8>, StorageError>) {
        Ok(self.to_vec())
    }

    fn decode_value(data: &[u8]) -> (r: Result<Self, StorageError>) {
        match HashValue::from_slice(data) {
            Some(h) => Ok(h),
            None => Err(StorageError::Codec),
        }
    }

    proof fn lemma_value_encoding_accepted(v: Self) {
    }

    proof fn lemma_value_injective(a: Self, b: Self) {
        lemma_same_bytes_same_hash(a, b);
    }
}

/// Two hashes with the same bytes are the same hash.
proof fn lemma_same_bytes_same_hash(a: HashValue, b: HashValue)
    requires
        a@ == b@,
    ensures
        a == b,
{
    broadcast use vstd::array::group_array_axioms;
    assert(a.bytes =~= b.bytes);
}


/// Decoding the encoding of a key or value gives it back: the encoding is accepted, and
/// whatever decodes from the same bytes is the same key or value.
pub proof fn lemma_codec_round_trip<K: KeyCodec, V: ValueCodec>(k: K, decoded_k: K, v: V, decoded_v: V)
    requires
        decoded_k.key_bytes() == k.key_bytes(),
        decoded_v.value_bytes() == v.value_bytes(),
    ensures
        K::accepts_key(k.key_bytes()),
        V::accepts_value(v.value_bytes()),
        decoded_k == k,
        decoded_v == v,
{
    K::lemma_key_encoding_accepted(k);
    V::lemma_value_encoding_accepted(v);
    K::lemma_key_injective(decoded_k, k);
    V::lemma_value_injective(decoded_v, v);
}

/// A typed read after a typed write of the same key gives the written value whenever it
/// succeeds.
pub proof fn lemma_codec_get_after_put<K: KeyCodec, V: ValueCodec>(before: ColumnView, after: ColumnView, k: K, v: V, read: V)
    requires
        after == before.insert(k.key_bytes(), v.value_bytes()),
        after.contains_key(k.key_bytes()) && read.value_bytes() == after[k.key_bytes()],
    ensures
        read == v,
{
    V::lemma_value_injective(read, v);
}

/// Bytes of any length but 32 are refused as a hash key or value.
pub proof fn lemma_hash_codec_refuses_other_lengths(data: Seq<u8>)
    requires
        data.len() != 32,
    ensures
        !<HashValue as KeyCodec>::accepts_key(data),
        !<HashValue as ValueCodec>::accepts_value(data),
{
}

} // verus!
