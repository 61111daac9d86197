use phantom_core::sharding::{Shard, ShardingManager};

#[test]
fn test_sharding_integrity() {
    let secret = b"PHANTOM_ROOT_KEY_ED25519_SECRET_777";
    let threshold = 3;
    let total = 5;

    let shards = ShardingManager::split(secret, threshold, total);
    assert_eq!(shards.len(), total);

    // Reconstruct with exactly 3 shards
    let subset = &shards[0..3];
    let recovered = ShardingManager::reconstruct(subset);
    assert_eq!(secret.to_vec(), recovered);

    // Reconstruct with first, third, and fifth shard
    let jumping_subset = vec![shards[0].clone(), shards[2].clone(), shards[4].clone()];
    let recovered_jumping = ShardingManager::reconstruct(&jumping_subset);
    assert_eq!(secret.to_vec(), recovered_jumping);
}

#[test]
fn test_sharding_points_and_widths() {
    let secret = b"abc";
    let shards = ShardingManager::split(secret, 2, 4);
    assert_eq!(shards.len(), 4);
    for (i, shard) in shards.iter().enumerate() {
        assert_eq!(shard.x, (i + 1) as u8);
        assert_eq!(shard.y.len(), secret.len());
    }
}

#[test]
fn test_sharding_threshold_one() {
    // With a single coefficient every shard carries the secret itself.
    let secret = b"zx";
    let shards = ShardingManager::split(secret, 1, 3);
    for shard in &shards {
        assert_eq!(shard.y, secret.to_vec());
        let alone = ShardingManager::reconstruct(&[shard.clone()]);
        assert_eq!(alone, secret.to_vec());
    }
}

#[test]
fn test_sharding_empty_secret() {
    let shards = ShardingManager::split(b"", 2, 3);
    assert_eq!(shards.len(), 3);
    let recovered = ShardingManager::reconstruct(&shards);
    assert_eq!(recovered, Vec::<u8>::new());
}

#[test]
fn test_sharding_single_point_value() {
    // Reconstruction from one shard is its own values: the Lagrange
    // basis of a lone point is 1.
    let shard = Shard { x: 4, y: vec![9, 8, 7] };
    let recovered = ShardingManager::reconstruct(&[shard]);
    assert_eq!(recovered, vec![9, 8, 7]);
}
