use audio_engine::BufferManager;
use audio_engine::POOL_CAPACITY;

#[test]
fn test_buffer_manager_creation() {
    let manager = BufferManager::new(1024, 0.0f32);
    assert_eq!(manager.buffer_size(), 1024);
    assert_eq!(manager.pool_size(), 4);
}

#[test]
fn pool_never_exceeds_capacity() {
    let mut manager = BufferManager::new(64, 0.0f32);
    assert_eq!(manager.pool_size(), POOL_CAPACITY);

    // Returning more buffers than were taken out must not grow the pool.
    manager.return_buffer(vec![1.0f32; 64]);
    manager.return_buffer(vec![2.0f32; 8]);
    assert_eq!(manager.pool_size(), POOL_CAPACITY);

    // Any interleaving of acquire and release stays within capacity.
    let a = manager.get_buffer(16);
    let b = manager.get_buffer(16);
    assert_eq!(manager.pool_size(), 2);
    manager.return_buffer(a);
    manager.return_buffer(b);
    manager.return_buffer(vec![0.5f32; 4]);
    assert_eq!(manager.pool_size(), POOL_CAPACITY);
}

#[test]
fn acquired_buffer_is_zero_filled() {
    let mut manager = BufferManager::new(32, 0.0f32);

    // Dirty a buffer, give it back, and take it out again.
    let mut dirty = manager.get_buffer(32);
    for s in dirty.iter_mut() {
        *s = 0.75;
    }
    manager.return_buffer(dirty);

    let clean = manager.get_buffer(32);
    assert_eq!(clean.len(), 32);
    assert!(clean.iter().all(|&s| s == 0.0));
}

#[test]
fn acquire_matches_requested_length() {
    let mut manager = BufferManager::new(16, 0i64);
    let small = manager.get_buffer(3);
    assert_eq!(small.len(), 3);
    // Larger than the pre-allocated size: still exactly the requested length.
    let large = manager.get_buffer(100);
    assert_eq!(large.len(), 100);
    assert!(large.iter().all(|&s| s == 0));
}

#[test]
fn acquire_of_nothing_is_empty() {
    let mut manager = BufferManager::new(8, 0.0f32);
    let empty = manager.get_buffer(0);
    assert!(empty.is_empty());
}

#[test]
fn acquire_on_empty_pool_allocates() {
    let mut manager = BufferManager::new(8, 0.0f32);
    let mut held = Vec::new();
    for _ in 0..POOL_CAPACITY {
        held.push(manager.get_buffer(8));
    }
    assert_eq!(manager.pool_size(), 0);
    let extra = manager.get_buffer(8);
    assert_eq!(extra.len(), 8);
    assert!(extra.iter().all(|&s| s == 0.0));
    assert_eq!(manager.pool_size(), 0);
}
