use text_to_cypher::cache::{process_clear_schema_cache, SchemaCache};

#[test]
fn insert_then_get_returns_schema() {
    let mut cache = SchemaCache::new(100);
    cache.insert("movies".to_string(), "schema-a".to_string());
    assert_eq!(cache.get(&"movies".to_string()), Some("schema-a".to_string()));
}

#[test]
fn get_on_empty_cache_is_absent() {
    let cache = SchemaCache::new(100);
    assert_eq!(cache.get(&"movies".to_string()), None);
}

#[test]
fn last_writer_wins_on_same_key() {
    let mut cache = SchemaCache::new(100);
    cache.insert("movies".to_string(), "schema-a".to_string());
    cache.insert("movies".to_string(), "schema-b".to_string());
    assert_eq!(cache.get(&"movies".to_string()), Some("schema-b".to_string()));
    assert_eq!(cache.len(), 1);
}

#[test]
fn invalidate_makes_get_absent() {
    let mut cache = SchemaCache::new(100);
    cache.insert("movies".to_string(), "schema-a".to_string());
    cache.invalidate(&"movies".to_string());
    assert_eq!(cache.get(&"movies".to_string()), None);
}

#[test]
fn invalidate_absent_key_is_a_noop() {
    let mut cache = SchemaCache::new(100);
    cache.insert("movies".to_string(), "schema-a".to_string());
    cache.invalidate(&"books".to_string());
    assert_eq!(cache.get(&"books".to_string()), None);
    assert_eq!(cache.get(&"movies".to_string()), Some("schema-a".to_string()));
}

#[test]
fn eviction_drops_least_recently_inserted() {
    let mut cache = SchemaCache::new(2);
    cache.insert("a".to_string(), "1".to_string());
    cache.insert("b".to_string(), "2".to_string());
    cache.insert("c".to_string(), "3".to_string());
    assert_eq!(cache.len(), 2);
    assert_eq!(cache.get(&"a".to_string()), None);
    assert_eq!(cache.get(&"b".to_string()), Some("2".to_string()));
    assert_eq!(cache.get(&"c".to_string()), Some("3".to_string()));
}

#[test]
fn reinsertion_refreshes_recency() {
    let mut cache = SchemaCache::new(2);
    cache.insert("a".to_string(), "1".to_string());
    cache.insert("b".to_string(), "2".to_string());
    cache.insert("a".to_string(), "1".to_string());
    cache.insert("c".to_string(), "3".to_string());
    assert_eq!(cache.get(&"a".to_string()), Some("1".to_string()));
    assert_eq!(cache.get(&"b".to_string()), None);
    assert_eq!(cache.get(&"c".to_string()), Some("3".to_string()));
}

#[test]
fn clear_schema_cache_clears_one_key() {
    let mut cache = SchemaCache::new(100);
    cache.insert("movies".to_string(), "schema-a".to_string());
    cache.insert("books".to_string(), "schema-b".to_string());
    process_clear_schema_cache(&mut cache, &"movies".to_string());
    assert_eq!(cache.get(&"movies".to_string()), None);
    assert_eq!(cache.get(&"books".to_string()), Some("schema-b".to_string()));
}

#[test]
fn clear_schema_cache_on_absent_key_succeeds() {
    let mut cache = SchemaCache::new(100);
    process_clear_schema_cache(&mut cache, &"movies".to_string());
    assert_eq!(cache.get(&"movies".to_string()), None);
}
