use tetrad::cache::EvaluationCache;
use tetrad::types::{Decision, EvaluationResult, EvaluationType};

fn create_test_result() -> EvaluationResult {
    EvaluationResult::success("test-123", 85, "Test feedback")
}

#[test]
fn test_cache_key_generation() {
    let key1 = EvaluationCache::cache_key("fn main() {}", "rust", &EvaluationType::Code);
    let key2 = EvaluationCache::cache_key("fn main() {}", "rust", &EvaluationType::Code);
    let key3 = EvaluationCache::cache_key("fn main() {}", "python", &EvaluationType::Code);
    assert_eq!(key1, key2);
    assert_ne!(key1, key3);
}

#[test]
fn test_cache_key_normalization() {
    let key1 = EvaluationCache::cache_key("fn main() {}", "rust", &EvaluationType::Code);
    let key2 = EvaluationCache::cache_key("  fn main() {}  ", "rust", &EvaluationType::Code);
    assert_eq!(key1, key2);
}

#[test]
fn cache_key_is_sha256_of_parts() {
    // SHA-256 of "abcrustcode".
    let key = EvaluationCache::cache_key("abc", "rust", &EvaluationType::Code);
    assert_eq!(key.len(), 64);
    assert_ne!(key, EvaluationCache::cache_key("abc", "rust", &EvaluationType::FinalCheck));
}

#[test]
fn test_cache_hit() {
    let mut cache = EvaluationCache::new(10, 60);
    cache.insert("test-key".to_string(), create_test_result());
    let cached = cache.get("test-key");
    assert!(cached.is_some());
    assert_eq!(cached.unwrap().request_id, "test-123");
    let stats = cache.stats();
    assert_eq!(stats.hits, 1);
    assert_eq!(stats.misses, 0);
}

#[test]
fn lru_test_cache_miss() {
    let mut cache = EvaluationCache::new(10, 60);
    assert!(cache.get("nonexistent").is_none());
    let stats = cache.stats();
    assert_eq!(stats.hits, 0);
    assert_eq!(stats.misses, 1);
}

#[test]
fn test_cache_expiration() {
    let mut cache = EvaluationCache::new(10, 0);
    cache.insert("test-key".to_string(), create_test_result());
    assert!(cache.get("test-key").is_none());
}

#[test]
fn expiry_with_explicit_times() {
    let mut cache = EvaluationCache::new(10, 2);
    cache.insert_at("k".to_string(), create_test_result(), 1_000_000_000);
    assert!(cache.get_at("k", 3_000_000_000).is_some());
    assert!(cache.get_at("k", 3_000_000_001).is_none());
    assert_eq!(cache.stats().size, 0);
}

#[test]
fn lru_test_cache_lru_eviction() {
    let mut cache = EvaluationCache::new(2, 60);
    cache.insert("key1".to_string(), create_test_result());
    cache.insert("key2".to_string(), create_test_result());
    cache.insert("key3".to_string(), create_test_result());
    assert!(cache.get("key1").is_none());
    assert!(cache.get("key2").is_some());
    assert!(cache.get("key3").is_some());
}

#[test]
fn lru_hit_protects_from_eviction() {
    let mut cache = EvaluationCache::new(2, 60);
    cache.insert_at("a".to_string(), create_test_result(), 0);
    cache.insert_at("b".to_string(), create_test_result(), 0);
    assert!(cache.get_at("a", 1).is_some());
    cache.insert_at("c".to_string(), create_test_result(), 2);
    assert!(cache.get_at("b", 3).is_none());
    assert!(cache.get_at("a", 3).is_some());
    assert!(cache.get_at("c", 3).is_some());
}

#[test]
fn test_cache_invalidate() {
    let mut cache = EvaluationCache::new(10, 60);
    cache.insert("test-key".to_string(), create_test_result());
    assert!(cache.get("test-key").is_some());
    cache.invalidate("test-key");
    assert!(cache.get("test-key").is_none());
}

#[test]
fn lru_test_cache_clear() {
    let mut cache = EvaluationCache::new(10, 60);
    cache.insert("key1".to_string(), create_test_result());
    cache.insert("key2".to_string(), create_test_result());
    cache.clear();
    assert!(cache.get("key1").is_none());
    assert!(cache.get("key2").is_none());
    assert_eq!(cache.stats().size, 0);
}

#[test]
fn lru_test_cache_stats() {
    let mut cache = EvaluationCache::new(10, 60);
    cache.insert("key1".to_string(), create_test_result());
    cache.get("key1");
    cache.get("key2");
    cache.get("key1");
    let stats = cache.stats();
    assert_eq!(stats.size, 1);
    assert_eq!(stats.capacity, 10);
    assert_eq!(stats.hits, 2);
    assert_eq!(stats.misses, 1);
}

#[test]
fn test_insert_by_code() {
    let mut cache = EvaluationCache::new(10, 60);
    cache.insert_by_code("fn main() {}", "rust", &EvaluationType::Code, create_test_result());
    assert!(cache.get_by_code("fn main() {}", "rust", &EvaluationType::Code).is_some());
}

#[test]
fn cleanup_removes_only_stale() {
    let mut cache = EvaluationCache::new(10, 1);
    cache.insert_at("old".to_string(), create_test_result(), 0);
    let mut fresh = create_test_result();
    fresh.decision = Decision::Block;
    cache.insert_at("new".to_string(), fresh, 5_000_000_000);
    cache.cleanup_expired_at(5_500_000_000);
    assert_eq!(cache.stats().size, 1);
    assert_eq!(cache.get_at("new", 5_500_000_000).unwrap().decision, Decision::Block);
}

#[test]
fn zero_capacity_means_one_hundred() {
    assert_eq!(EvaluationCache::new(0, 1).stats().capacity, 100);
    assert_eq!(EvaluationCache::default_config().stats().capacity, 100);
}

#[test]
fn counters_follow_lookups() {
    let mut cache = EvaluationCache::new(4, 10);
    cache.insert_by_code_at("x", "rust", &EvaluationType::Code, create_test_result(), 0);
    assert!(cache.get_by_code_at("x", "rust", &EvaluationType::Code, 1).is_some());
    assert!(cache.get_by_code_at("y", "rust", &EvaluationType::Code, 1).is_none());
    let stats = cache.stats();
    assert_eq!((stats.hits, stats.misses), (1, 1));
}
