use lrama::kv_cache::{KVCache, KVCacheError};

#[test]
fn store_then_read_back() {
    let mut cache = KVCache::new(2, 3, 4, 0.0f32);
    cache.store(1, 2, &[1.0, 2.0, 3.0], &[4.0, 5.0, 6.0]).unwrap();
    let keys = cache.get_keys(1, 3);
    assert_eq!(keys.len(), 9);
    assert_eq!(&keys[6..9], &[1.0, 2.0, 3.0]);
    assert_eq!(&keys[0..6], &[0.0; 6]);
    assert_eq!(&cache.get_values(1, 3)[6..9], &[4.0, 5.0, 6.0]);
    // the other layer is untouched
    assert_eq!(cache.get_keys(0, 4), &[0.0; 12]);
}

#[test]
fn store_overwrites_a_position() {
    let mut cache = KVCache::new(1, 2, 2, 0u32);
    cache.store(0, 0, &[1, 2], &[3, 4]).unwrap();
    cache.store(0, 1, &[5, 6], &[7, 8]).unwrap();
    cache.store(0, 0, &[9, 9], &[9, 9]).unwrap();
    assert_eq!(cache.get_keys(0, 2), &[9, 9, 5, 6]);
    assert_eq!(cache.get_values(0, 2), &[9, 9, 7, 8]);
    assert_eq!(cache.get_keys(0, 0), &[] as &[u32]);
}

#[test]
fn store_errors() {
    let mut cache = KVCache::new(1, 2, 2, 0u8);
    assert_eq!(cache.store(1, 0, &[1, 2], &[1, 2]), Err(KVCacheError::LayerOutOfBounds));
    assert_eq!(cache.store(0, 2, &[1, 2], &[1, 2]), Err(KVCacheError::PositionOutOfBounds));
    assert_eq!(cache.store(0, 0, &[1], &[1, 2]), Err(KVCacheError::SizeMismatch));
    assert_eq!(cache.store(0, 0, &[1, 2], &[1, 2, 3]), Err(KVCacheError::SizeMismatch));
    assert_eq!(cache.get_keys(0, 2), &[0, 0, 0, 0]);
    assert_eq!(KVCacheError::SizeMismatch.message(), "Key/value size mismatch");
    assert_eq!(KVCacheError::LayerOutOfBounds.message(), "Layer index out of bounds");
}

#[test]
fn new_cache_shape() {
    let cache = KVCache::new(3, 4, 5, 1i16);
    assert_eq!(cache.n_layer, 3);
    assert_eq!(cache.k_cache.len(), 3);
    assert!(cache.v_cache.iter().all(|row| row.len() == 20 && row.iter().all(|&x| x == 1)));
}
