use fga::model::Tenant;
use fga::model::Typesystem;
use fga::storage::MemoryModelStore;
use fga::storage::MemoryTenantStore;
use fga::storage::MemoryTupleStore;
use fga::storage::ModelRow;
use fga::storage::StorageError;
use fga::storage::TupleFilter;
use fga::tuple::Tuple;
use fga::tuple::TupleKey;

fn tup(ot: &str, oid: &str, rel: &str, ut: &str, uid: &str, urel: Option<&str>) -> Tuple {
    Tuple {
        user_type: ut.to_string(),
        user_id: uid.to_string(),
        user_relation: urel.map(|s| s.to_string()),
        relation: rel.to_string(),
        object_type: ot.to_string(),
        object_id: oid.to_string(),
    }
}

fn seed() -> MemoryTupleStore {
    let mut store = MemoryTupleStore::new();
    store.save(
        &"t1".to_string(),
        vec![
            tup("folder", "root", "owner", "user", "alice", None),
            tup("folder", "root", "viewer", "user", "*", None),
            tup("folder", "reports", "viewer", "group", "eng", Some("member")),
        ],
    );
    store.save(&"t2".to_string(), vec![tup("folder", "root", "owner", "user", "eve", None)]);
    store
}

#[test]
fn list_scopes_by_tenant() {
    let store = seed();
    let all = store.list(&"t1".to_string(), &TupleFilter::empty());
    assert_eq!(all.len(), 3);
    let other = store.list(&"t2".to_string(), &TupleFilter::empty());
    assert_eq!(other.len(), 1);
    assert_eq!(other[0].user_id, "eve");
}

#[test]
fn list_filters_fields() {
    let store = seed();
    let mut f = TupleFilter::empty();
    f.object_type_eq = Some("folder".to_string());
    f.object_id_eq = Some("root".to_string());
    f.relation_eq = Some("owner".to_string());
    let got = store.list(&"t1".to_string(), &f);
    assert_eq!(got.len(), 1);
    assert_eq!(got[0].user_id, "alice");
}

#[test]
fn list_filters_user_relation_null() {
    let store = seed();
    let mut f = TupleFilter::empty();
    f.user_relation_is_null = Some(false);
    let got = store.list(&"t1".to_string(), &f);
    assert_eq!(got.len(), 1);
    assert_eq!(got[0].user_id, "eng");
    let mut g = TupleFilter::empty();
    g.user_relation_is_null = Some(true);
    assert_eq!(store.list(&"t1".to_string(), &g).len(), 2);
}

#[test]
fn list_filters_user_id_in() {
    let store = seed();
    let mut f = TupleFilter::empty();
    f.user_id_in = Some(vec!["alice".to_string(), "bob".to_string()]);
    let got = store.list(&"t1".to_string(), &f);
    assert_eq!(got.len(), 1);
    assert_eq!(got[0].user_id, "alice");
}

#[test]
fn empty_disjunction_matches_nothing() {
    let store = seed();
    let mut f = TupleFilter::empty();
    f.or = Some(vec![]);
    assert_eq!(store.list(&"t1".to_string(), &f).len(), 0);
}

#[test]
fn disjunction_matches_any_branch() {
    let store = seed();
    let mut a = TupleFilter::empty();
    a.user_id_eq = Some("alice".to_string());
    let mut b = TupleFilter::empty();
    b.user_id_eq = Some("*".to_string());
    let mut f = TupleFilter::empty();
    f.or = Some(vec![a, b]);
    assert_eq!(store.list(&"t1".to_string(), &f).len(), 2);
}

#[test]
fn delete_removes_matching_rows() {
    let mut store = seed();
    let mut f = TupleFilter::empty();
    f.relation_eq = Some("viewer".to_string());
    store.delete(&"t1".to_string(), &f);
    let rest = store.list(&"t1".to_string(), &TupleFilter::empty());
    assert_eq!(rest.len(), 1);
    assert_eq!(rest[0].relation, "owner");
    assert_eq!(store.list(&"t2".to_string(), &TupleFilter::empty()).len(), 1);
}

fn key(urel: &str) -> TupleKey {
    TupleKey {
        user_type: "user".to_string(),
        user_id: "alice".to_string(),
        user_relation: urel.to_string(),
        relation: "viewer".to_string(),
        object_type: "folder".to_string(),
        object_id: "root".to_string(),
    }
}

#[test]
fn cache_key_wire_format() {
    assert_eq!(key("").cache_key(), "folder:root-viewer-user:alice");
    assert_eq!(key("member").cache_key(), "folder:root-viewer-user:alice#member");
}

#[test]
fn path_fingerprint_format() {
    assert_eq!(key("").path_fingerprint(), "folder:root#viewer@user:alice");
    assert_eq!(key("member").path_fingerprint(), "folder:root#viewer@user:alice#member");
}

#[test]
fn key_as_tuple_maps_empty_relation_to_none() {
    let t = key("").as_tuple();
    assert!(t.user_relation.is_none());
    let t2 = key("member").as_tuple();
    assert_eq!(t2.user_relation.as_deref(), Some("member"));
}

#[test]
fn model_store_latest_and_get() {
    let mut store = MemoryModelStore::new();
    assert!(matches!(
        store.get_latest(&"t1".to_string()),
        Err(StorageError::NotFoundAuthzModel)
    ));
    store.save(ModelRow {
        tenant_id: "t1".to_string(),
        model_id: "m1".to_string(),
        model: Typesystem { types: vec![] },
    });
    store.save(ModelRow {
        tenant_id: "t1".to_string(),
        model_id: "m2".to_string(),
        model: Typesystem { types: vec![] },
    });
    store.save(ModelRow {
        tenant_id: "t2".to_string(),
        model_id: "m9".to_string(),
        model: Typesystem { types: vec![] },
    });
    assert_eq!(store.get_latest(&"t1".to_string()).unwrap().model_id, "m2");
    assert_eq!(store.get(&"t1".to_string(), &"m1".to_string()).unwrap().model_id, "m1");
    assert!(store.get(&"t1".to_string(), &"m9".to_string()).is_err());
}

#[test]
fn tenant_store_create_get_delete() {
    let mut store = MemoryTenantStore::new();
    store.create(Tenant {
        id: "t1".to_string(),
        name: "first".to_string(),
    });
    store.create(Tenant {
        id: "t2".to_string(),
        name: "second".to_string(),
    });
    assert_eq!(store.get(&"t1".to_string()).unwrap().name, "first");
    store.delete(&"t1".to_string());
    assert!(matches!(
        store.get(&"t1".to_string()),
        Err(StorageError::NotFoundTenant)
    ));
    assert_eq!(store.get(&"t2".to_string()).unwrap().name, "second");
}
