use fga::cache_checker::CacheChecker;
use fga::checker::CheckRequest;
use fga::checker::ResolutionMetadata;
use fga::local_checker::LocalChecker;
use fga::model::RelationEntry;
use fga::model::RelationMetadata;
use fga::model::RelationReference;
use fga::model::Type;
use fga::model::Typesystem;
use fga::model::Userset;
use fga::storage::MemoryTupleStore;
use fga::tuple::Tuple;
use fga::tuple::TupleKey;

fn model() -> Typesystem {
    Typesystem {
        types: vec![Type {
            name: "folder".to_string(),
            relations: vec![RelationEntry {
                name: "owner".to_string(),
                rewrite: Userset::This,
                metadata: RelationMetadata {
                    directly_related_user_types: vec![RelationReference::Direct(
                        "user".to_string(),
                    )],
                },
            }],
        }],
    }
}

fn store() -> MemoryTupleStore {
    let mut store = MemoryTupleStore::new();
    store.save(
        &"t1".to_string(),
        vec![Tuple {
            user_type: "user".to_string(),
            user_id: "alice".to_string(),
            user_relation: None,
            relation: "owner".to_string(),
            object_type: "folder".to_string(),
            object_id: "root".to_string(),
        }],
    );
    store
}

fn key(oid: &str, uid: &str) -> TupleKey {
    TupleKey {
        user_type: "user".to_string(),
        user_id: uid.to_string(),
        user_relation: String::new(),
        relation: "owner".to_string(),
        object_type: "folder".to_string(),
        object_id: oid.to_string(),
    }
}

fn request(k: TupleKey) -> CheckRequest {
    CheckRequest {
        tenant_id: "t1".to_string(),
        model_id: "m1".to_string(),
        typesystem: model(),
        tuple_key: k,
        contextual_tuples: vec![],
        resolution_metadata: ResolutionMetadata::default(),
        visited_paths: vec![],
    }
}

#[test]
fn cache_repeats_report_zero_queries() {
    let mut checker = CacheChecker::new(LocalChecker::new(store()));
    let req = request(key("root", "alice"));
    let first = checker.check(&req).unwrap();
    assert!(first.allow);
    assert_eq!(first.resolution_metadata.datastore_query_count, 1);
    for _ in 0..5 {
        let again = checker.check(&req).unwrap();
        assert_eq!(again.allow, first.allow);
        assert_eq!(again.resolution_metadata.datastore_query_count, 0);
    }
}

#[test]
fn cache_caches_denials_too() {
    let mut checker = CacheChecker::new(LocalChecker::new(store()));
    let req = request(key("root", "mallory"));
    let first = checker.check(&req).unwrap();
    assert!(!first.allow);
    let again = checker.check(&req).unwrap();
    assert!(!again.allow);
    assert_eq!(again.resolution_metadata.datastore_query_count, 0);
}

#[test]
fn cache_close_drops_entries() {
    let mut checker = CacheChecker::new(LocalChecker::new(store()));
    let req = request(key("root", "alice"));
    checker.check(&req).unwrap();
    checker.close();
    let after = checker.check(&req).unwrap();
    assert_eq!(after.resolution_metadata.datastore_query_count, 1);
}

#[test]
fn cache_distinguishes_requests() {
    let mut checker = CacheChecker::new(LocalChecker::new(store()));
    let allow = checker.check(&request(key("root", "alice"))).unwrap();
    let deny = checker.check(&request(key("root", "bob"))).unwrap();
    assert!(allow.allow);
    assert!(!deny.allow);
}

#[test]
fn cache_key_is_base64_of_canonical_content() {
    let checker = CacheChecker::new(LocalChecker::new(MemoryTupleStore::new()));
    let req = request(key("root", "alice"));
    assert_eq!(
        checker.request_cache_key(&req),
        "dDEvbTEvZm9sZGVyOnJvb3Qtb3duZXItdXNlcjphbGljZQ=="
    );
}

fn ctx_key(ot: &str, oid: &str, rel: &str, ut: &str, uid: &str) -> TupleKey {
    TupleKey {
        user_type: ut.to_string(),
        user_id: uid.to_string(),
        user_relation: String::new(),
        relation: rel.to_string(),
        object_type: ot.to_string(),
        object_id: oid.to_string(),
    }
}

#[test]
fn cache_key_sorts_contextual_tuples() {
    let checker = CacheChecker::new(LocalChecker::new(MemoryTupleStore::new()));
    let mut req1 = request(key("root", "alice"));
    req1.contextual_tuples = vec![ctx_key("b", "2", "r", "u", "y"), ctx_key("a", "1", "r", "u", "x")];
    let mut req2 = request(key("root", "alice"));
    req2.contextual_tuples = vec![ctx_key("a", "1", "r", "u", "x"), ctx_key("b", "2", "r", "u", "y")];
    let k1 = checker.request_cache_key(&req1);
    let k2 = checker.request_cache_key(&req2);
    assert_eq!(k1, k2);
    assert_eq!(
        k1,
        "dDEvbTEvZm9sZGVyOnJvb3Qtb3duZXItdXNlcjphbGljZS9hOjEtci11OngvYjoyLXItdTp5"
    );
}

#[test]
fn cache_checker_name() {
    let checker = CacheChecker::new(LocalChecker::new(MemoryTupleStore::new()));
    assert_eq!(checker.name(), "cache");
    assert_eq!(checker.delegate.name(), "local");
}
