use chain_core::codec::{CodecStorage, KeyCodec, ValueCodec};
use chain_core::hash::HashValue;
use chain_core::storage::{
    InnerStorage, InnerStore, KVStore, MemoryStorage, Storage, StorageError, StorageInstance, WriteBatch, WriteOp,
};

fn tiered() -> InnerStorage<MemoryStorage> {
    let instance = StorageInstance::new_cache_and_db_instance(MemoryStorage::new(), MemoryStorage::new());
    InnerStorage::new(instance, "state")
}

#[test]
fn tiered_store_basic() {
    let mut store = tiered();
    store.put(b"a".to_vec(), b"1".to_vec()).unwrap();
    assert_eq!(store.get(b"a").unwrap(), Some(b"1".to_vec()));
    store.remove(b"a".to_vec()).unwrap();
    assert_eq!(store.get(b"a").unwrap(), None);
    match store.instance() {
        StorageInstance::CacheAndDb { cache, db } => {
            assert_eq!(cache.read("state", b"a"), None);
            assert_eq!(db.get("state", b"a".to_vec()).unwrap(), None);
        }
        _ => panic!("expected both tiers"),
    }
}

#[test]
fn put_reaches_both_tiers() {
    let mut store = tiered();
    store.put(b"k".to_vec(), b"v".to_vec()).unwrap();
    match store.instance() {
        StorageInstance::CacheAndDb { cache, db } => {
            assert_eq!(cache.read("state", b"k"), Some(b"v".to_vec()));
            assert_eq!(db.get("state", b"k".to_vec()).unwrap(), Some(b"v".to_vec()));
        }
        _ => panic!("expected both tiers"),
    }
}

#[test]
fn get_after_put_survives_cache_loss() {
    let mut store = tiered();
    store.put(b"k".to_vec(), b"v".to_vec()).unwrap();
    assert_eq!(store.get(b"k").unwrap(), Some(b"v".to_vec()));
    store.invalidate_cache(b"k");
    assert_eq!(store.get(b"k").unwrap(), Some(b"v".to_vec()));
    // presence is answered by the cache tier
    assert!(!store.contains_key(b"k".to_vec()).unwrap());
    // counting and listing go by the cache tier
    assert_eq!(store.get_len().unwrap(), 0);
    assert!(store.keys().unwrap().is_empty());
}

#[test]
fn overwrite_keeps_latest_value() {
    let mut store = tiered();
    store.put(b"k".to_vec(), b"1".to_vec()).unwrap();
    store.put(b"k".to_vec(), b"2".to_vec()).unwrap();
    assert_eq!(store.get(b"k").unwrap(), Some(b"2".to_vec()));
    assert_eq!(store.get_len().unwrap(), 1);
}

#[test]
fn batch_with_empty_key_changes_nothing() {
    let mut store = tiered();
    store.put(b"a".to_vec(), b"1".to_vec()).unwrap();
    let batch = WriteBatch {
        rows: vec![
            (b"b".to_vec(), WriteOp::Value(b"2".to_vec())),
            (Vec::new(), WriteOp::Value(b"3".to_vec())),
            (b"a".to_vec(), WriteOp::Deletion),
        ],
    };
    assert_eq!(store.write_batch(batch), Err(StorageError::EmptyKey));
    assert_eq!(store.get(b"a").unwrap(), Some(b"1".to_vec()));
    assert_eq!(store.get(b"b").unwrap(), None);
    assert_eq!(store.get_len().unwrap(), 1);
}

#[test]
fn batch_applies_rows_in_order() {
    let mut store = tiered();
    store.put(b"a".to_vec(), b"1".to_vec()).unwrap();
    let batch = WriteBatch {
        rows: vec![
            (b"b".to_vec(), WriteOp::Value(b"2".to_vec())),
            (b"a".to_vec(), WriteOp::Deletion),
            (b"b".to_vec(), WriteOp::Value(b"3".to_vec())),
            (b"c".to_vec(), WriteOp::Value(b"4".to_vec())),
        ],
    };
    store.write_batch(batch).unwrap();
    assert_eq!(store.get(b"a").unwrap(), None);
    assert_eq!(store.get(b"b").unwrap(), Some(b"3".to_vec()));
    assert_eq!(store.get(b"c").unwrap(), Some(b"4".to_vec()));
    let mut keys = store.keys().unwrap();
    keys.sort();
    assert_eq!(keys, vec![b"b".to_vec(), b"c".to_vec()]);
}

#[test]
fn namespaces_are_independent() {
    let mut mem = MemoryStorage::new();
    mem.insert("one", b"k".to_vec(), b"1".to_vec());
    mem.insert("two", b"k".to_vec(), b"2".to_vec());
    assert_eq!(mem.read("one", b"k"), Some(b"1".to_vec()));
    assert_eq!(mem.read("two", b"k"), Some(b"2".to_vec()));
    mem.delete("one", b"k");
    assert_eq!(mem.read("one", b"k"), None);
    assert_eq!(mem.read("two", b"k"), Some(b"2".to_vec()));
    assert_eq!(mem.count("one"), 0);
    assert_eq!(mem.count("two"), 1);
    assert_eq!(mem.count("three"), 0);
}

#[test]
fn db_only_instance_lists_durable_keys() {
    let instance: StorageInstance<MemoryStorage> = StorageInstance::new_db_instance(MemoryStorage::new());
    let mut store = InnerStorage::new(instance, "blocks");
    store.put(b"x".to_vec(), b"1".to_vec()).unwrap();
    store.put(b"y".to_vec(), b"2".to_vec()).unwrap();
    assert_eq!(store.get_len().unwrap(), 2);
    let mut keys = store.keys().unwrap();
    keys.sort();
    assert_eq!(keys, vec![b"x".to_vec(), b"y".to_vec()]);
    assert!(store.contains_key(b"x".to_vec()).unwrap());
    assert!(!store.contains_key(b"z".to_vec()).unwrap());
}

#[test]
fn cache_only_instance() {
    let instance: StorageInstance<MemoryStorage> = StorageInstance::new_cache_instance(MemoryStorage::new());
    let mut store = InnerStorage::new(instance, "tmp");
    store.put(b"x".to_vec(), b"1".to_vec()).unwrap();
    assert_eq!(store.get(b"x").unwrap(), Some(b"1".to_vec()));
    store.remove(b"x".to_vec()).unwrap();
    assert_eq!(store.get_len().unwrap(), 0);
}

#[test]
fn two_tier_storage_routes_like_instance() {
    let mut store = Storage::new(MemoryStorage::new(), MemoryStorage::new(), "cf");
    store.put(b"a".to_vec(), b"1".to_vec()).unwrap();
    assert_eq!(store.get(b"a").unwrap(), Some(b"1".to_vec()));
    assert!(store.contains_key(b"a".to_vec()).unwrap());
    store.invalidate_cache(b"a");
    assert_eq!(store.get(b"a").unwrap(), Some(b"1".to_vec()));
    assert!(!store.contains_key(b"a".to_vec()).unwrap());
    store.remove(b"a".to_vec()).unwrap();
    assert_eq!(store.get(b"a").unwrap(), None);
    assert!(!store.contains_key(b"a".to_vec()).unwrap());
}

#[test]
fn hash_codec_round_trip() {
    let h = HashValue { bytes: [9u8; 32] };
    let k = h.encode_key().unwrap();
    assert_eq!(k.len(), 32);
    assert_eq!(HashValue::decode_key(&k).unwrap(), h);
    let v = h.encode_value().unwrap();
    assert_eq!(HashValue::decode_value(&v).unwrap(), h);
}

#[test]
fn hash_codec_refuses_malformed_bytes() {
    assert_eq!(HashValue::decode_key(&[1, 2, 3]), Err(StorageError::Codec));
    assert_eq!(HashValue::decode_value(&[0u8; 33]), Err(StorageError::Codec));
    assert_eq!(HashValue::decode_value(&[]), Err(StorageError::Codec));
}

#[test]
fn codec_storage_typed_round_trip() {
    let mut typed: CodecStorage<HashValue, HashValue, InnerStorage<MemoryStorage>> = CodecStorage::new(tiered());
    let k = HashValue { bytes: [1u8; 32] };
    let v = HashValue { bytes: [2u8; 32] };
    typed.put(k, v).unwrap();
    assert_eq!(typed.get(k).unwrap(), Some(v));
    assert!(typed.contains_key(k).unwrap());
    assert_eq!(typed.get_len().unwrap(), 1);
    typed.remove(k).unwrap();
    assert_eq!(typed.get(k).unwrap(), None);
}

#[test]
fn codec_storage_reports_corrupt_value() {
    let mut raw = tiered();
    raw.put(vec![1u8; 32], vec![7u8; 5]).unwrap();
    let typed: CodecStorage<HashValue, HashValue, InnerStorage<MemoryStorage>> = CodecStorage::new(raw);
    assert_eq!(typed.get(HashValue { bytes: [1u8; 32] }), Err(StorageError::Codec));
}

#[test]
fn sha3_of_empty_input() {
    let h = HashValue::sha3_256_of(&Vec::new());
    let expected: [u8; 32] = [
        0xa7, 0xff, 0xc6, 0xf8, 0xbf, 0x1e, 0xd7, 0x66, 0x51, 0xc1, 0x47, 0x56, 0xa0, 0x61, 0xd6, 0x62, 0xf5, 0x80,
        0xff, 0x4d, 0xe4, 0x3b, 0x49, 0xfa, 0x82, 0xd8, 0x0a, 0x4b, 0x80, 0xf8, 0x43, 0x4a,
    ];
    assert_eq!(h.bytes, expected);
}

#[test]
fn hash_from_slice_and_zero() {
    assert!(HashValue::from_slice(&[0u8; 31]).is_none());
    let h = HashValue::from_slice(&[5u8; 32]).unwrap();
    assert_eq!(h.to_vec(), vec![5u8; 32]);
    assert_eq!(HashValue::zero().bytes, [0u8; 32]);
    assert!(!h.equals(&HashValue::zero()));
}

#[test]
fn empty_batch_changes_nothing() {
    let mut store = tiered();
    store.put(b"a".to_vec(), b"1".to_vec()).unwrap();
    store.write_batch(WriteBatch { rows: Vec::new() }).unwrap();
    assert_eq!(store.get(b"a").unwrap(), Some(b"1".to_vec()));
    assert_eq!(store.get_len().unwrap(), 1);
}

#[test]
fn empty_key_is_refused() {
    let mut store = tiered();
    assert_eq!(store.put(Vec::new(), b"v".to_vec()), Err(StorageError::EmptyKey));
    assert_eq!(store.get_len().unwrap(), 0);
    let mut mem = MemoryStorage::new();
    assert_eq!(InnerStore::put(&mut mem, "cf", Vec::new(), b"v".to_vec()), Err(StorageError::EmptyKey));
    let batch = WriteBatch { rows: vec![(Vec::new(), WriteOp::Deletion)] };
    assert_eq!(mem.apply_batch("cf", &batch), Err(StorageError::EmptyKey));
    assert_eq!(mem.count("cf"), 0);
}
