use fga::checker::CheckRequest;
use fga::checker::CheckerError;
use fga::checker::ResolutionMetadata;
use fga::local_checker::LocalChecker;
use fga::model::ObjectRelation;
use fga::model::RelationEntry;
use fga::model::RelationMetadata;
use fga::model::RelationReference;
use fga::model::TupleToUserset;
use fga::model::Type;
use fga::model::Typesystem;
use fga::model::Userset;
use fga::storage::MemoryTupleStore;
use fga::tuple::Tuple;
use fga::tuple::TupleKey;

fn entry(name: &str, rewrite: Userset, refs: Vec<RelationReference>) -> RelationEntry {
    RelationEntry {
        name: name.to_string(),
        rewrite,
        metadata: RelationMetadata {
            directly_related_user_types: refs,
        },
    }
}

fn or(relation: &str) -> ObjectRelation {
    ObjectRelation {
        object: String::new(),
        relation: relation.to_string(),
    }
}

/// The seed model: user, group with members, and folders whose viewers are
/// direct users, the wildcard, group members, the owner and the parent's
/// viewers.
fn seed_model() -> Typesystem {
    Typesystem {
        types: vec![
            Type {
                name: "user".to_string(),
                relations: vec![],
            },
            Type {
                name: "group".to_string(),
                relations: vec![entry(
                    "member",
                    Userset::This,
                    vec![RelationReference::Direct("user".to_string())],
                )],
            },
            Type {
                name: "folder".to_string(),
                relations: vec![
                    entry(
                        "owner",
                        Userset::This,
                        vec![RelationReference::Direct("user".to_string())],
                    ),
                    entry(
                        "parent",
                        Userset::This,
                        vec![RelationReference::Direct("folder".to_string())],
                    ),
                    entry(
                        "viewer",
                        Userset::Union {
                            children: vec![
                                Userset::This,
                                Userset::Computed(or("owner")),
                                Userset::TupleTo(TupleToUserset {
                                    tupleset: or("parent"),
                                    computed_userset: or("viewer"),
                                }),
                            ],
                        },
                        vec![
                            RelationReference::Direct("user".to_string()),
                            RelationReference::Wildcard("user".to_string()),
                            RelationReference::Relation {
                                typ: "group".to_string(),
                                relation: "member".to_string(),
                            },
                        ],
                    ),
                ],
            },
        ],
    }
}

fn tup(ot: &str, oid: &str, rel: &str, ut: &str, uid: &str, urel: Option<&str>) -> Tuple {
    Tuple {
        user_type: ut.to_string(),
        user_id: uid.to_string(),
        user_relation: urel.map(|s| s.to_string()),
        relation: rel.to_string(),
        object_type: ot.to_string(),
        object_id: oid.to_string(),
    }
}

fn seed_store() -> MemoryTupleStore {
    let mut store = MemoryTupleStore::new();
    store.save(
        &"t1".to_string(),
        vec![
            tup("folder", "root", "owner", "user", "alice", None),
            tup("folder", "root", "viewer", "user", "*", None),
            tup("folder", "docs", "parent", "folder", "root", None),
            tup("group", "eng", "member", "user", "bob", None),
            tup("folder", "reports", "viewer", "group", "eng", Some("member")),
        ],
    );
    store
}

fn key(ot: &str, oid: &str, rel: &str, ut: &str, uid: &str) -> TupleKey {
    TupleKey {
        user_type: ut.to_string(),
        user_id: uid.to_string(),
        user_relation: String::new(),
        relation: rel.to_string(),
        object_type: ot.to_string(),
        object_id: oid.to_string(),
    }
}

fn request(ts: Typesystem, k: TupleKey) -> CheckRequest {
    CheckRequest {
        tenant_id: "t1".to_string(),
        model_id: "m1".to_string(),
        typesystem: ts,
        tuple_key: k,
        contextual_tuples: vec![],
        resolution_metadata: ResolutionMetadata::default(),
        visited_paths: vec![],
    }
}

#[test]
fn check_owner_direct_allows() {
    let checker = LocalChecker::new(seed_store());
    let req = request(seed_model(), key("folder", "root", "owner", "user", "alice"));
    let res = checker.check(&req).unwrap();
    assert!(res.allow);
    assert_eq!(res.resolution_metadata.datastore_query_count, 1);
}

#[test]
fn check_wildcard_allows_any_id() {
    let checker = LocalChecker::new(seed_store());
    let req = request(seed_model(), key("folder", "root", "viewer", "user", "carol"));
    let res = checker.check(&req).unwrap();
    assert!(res.allow);
    assert_eq!(res.resolution_metadata.datastore_query_count, 1);
}

#[test]
fn check_parent_viewer_allows() {
    let checker = LocalChecker::new(seed_store());
    let req = request(seed_model(), key("folder", "docs", "viewer", "user", "alice"));
    let res = checker.check(&req).unwrap();
    assert!(res.allow);
    assert!(res.resolution_metadata.datastore_query_count >= 2);
    assert_eq!(res.resolution_metadata.datastore_query_count, 4);
}

#[test]
fn check_group_member_allows() {
    let checker = LocalChecker::new(seed_store());
    let req = request(seed_model(), key("folder", "reports", "viewer", "user", "bob"));
    let res = checker.check(&req).unwrap();
    assert!(res.allow);
    assert!(res.resolution_metadata.datastore_query_count >= 2);
    assert_eq!(res.resolution_metadata.datastore_query_count, 2);
}

#[test]
fn check_denies_after_enumerating() {
    let checker = LocalChecker::new(seed_store());
    let req = request(seed_model(), key("folder", "reports", "viewer", "user", "alice"));
    let res = checker.check(&req).unwrap();
    assert!(!res.allow);
    assert_eq!(res.resolution_metadata.datastore_query_count, 4);
}

#[test]
fn check_owner_denies_stranger() {
    let checker = LocalChecker::new(seed_store());
    let req = request(seed_model(), key("folder", "root", "owner", "user", "mallory"));
    let res = checker.check(&req).unwrap();
    assert!(!res.allow);
    assert_eq!(res.resolution_metadata.datastore_query_count, 1);
}

#[test]
fn check_unknown_relation_errors() {
    let checker = LocalChecker::new(seed_store());
    let req = request(seed_model(), key("folder", "root", "bogus", "user", "alice"));
    match checker.check(&req) {
        Err(CheckerError::NotFoundRelation { relation }) => assert_eq!(relation, "bogus"),
        other => panic!("expected a missing-relation error, got {:?}", other),
    }
}

#[test]
fn check_unknown_type_errors() {
    let checker = LocalChecker::new(seed_store());
    let req = request(seed_model(), key("document", "root", "owner", "user", "alice"));
    match checker.check(&req) {
        Err(CheckerError::NotFoundRelations { object_type }) => assert_eq!(object_type, "document"),
        other => panic!("expected a missing-type error, got {:?}", other),
    }
}

#[test]
fn check_no_direct_types_errors() {
    let ts = Typesystem {
        types: vec![Type {
            name: "doc".to_string(),
            relations: vec![entry("reader", Userset::This, vec![])],
        }],
    };
    let checker = LocalChecker::new(MemoryTupleStore::new());
    let req = request(ts, key("doc", "1", "reader", "user", "alice"));
    match checker.check(&req) {
        Err(CheckerError::NotFoundThisTypes {
            object_type,
            relation,
        }) => {
            assert_eq!(object_type, "doc");
            assert_eq!(relation, "reader");
        }
        other => panic!("expected a no-direct-types error, got {:?}", other),
    }
}

#[test]
fn check_depth_exceeded_errors() {
    let checker = LocalChecker::new(seed_store());
    let mut req = request(seed_model(), key("folder", "docs", "viewer", "user", "alice"));
    req.resolution_metadata.depth = 0;
    match checker.check(&req) {
        Err(CheckerError::DepthExceeded) => {}
        other => panic!("expected the depth budget to run out, got {:?}", other),
    }
}

#[test]
fn check_cyclic_model_terminates() {
    let ts = Typesystem {
        types: vec![
            Type {
                name: "user".to_string(),
                relations: vec![],
            },
            Type {
                name: "folder".to_string(),
                relations: vec![
                    entry(
                        "viewer",
                        Userset::This,
                        vec![RelationReference::Direct("user".to_string())],
                    ),
                    entry(
                        "parent",
                        Userset::This,
                        vec![RelationReference::Direct("folder".to_string())],
                    ),
                    entry(
                        "view",
                        Userset::Union {
                            children: vec![
                                Userset::Computed(or("viewer")),
                                Userset::TupleTo(TupleToUserset {
                                    tupleset: or("parent"),
                                    computed_userset: or("view"),
                                }),
                            ],
                        },
                        vec![RelationReference::Direct("user".to_string())],
                    ),
                ],
            },
        ],
    };
    let mut store = MemoryTupleStore::new();
    store.save(
        &"t1".to_string(),
        vec![
            tup("folder", "a", "parent", "folder", "b", None),
            tup("folder", "b", "parent", "folder", "a", None),
        ],
    );
    let checker = LocalChecker::new(store);
    let req = request(ts, key("folder", "a", "view", "user", "x"));
    let res = checker.check(&req).unwrap();
    assert!(!res.allow);
}

#[test]
fn check_contextual_tuples_decide() {
    let checker = LocalChecker::new(MemoryTupleStore::new());
    let mut req = request(seed_model(), key("folder", "root", "owner", "user", "alice"));
    req.contextual_tuples = vec![key("folder", "root", "owner", "user", "alice")];
    let res = checker.check(&req).unwrap();
    assert!(res.allow);
    assert_eq!(res.resolution_metadata.datastore_query_count, 1);
}

#[test]
fn check_intersection_and_difference() {
    let ts = Typesystem {
        types: vec![Type {
            name: "doc".to_string(),
            relations: vec![
                entry(
                    "a",
                    Userset::This,
                    vec![RelationReference::Direct("user".to_string())],
                ),
                entry(
                    "b",
                    Userset::This,
                    vec![RelationReference::Direct("user".to_string())],
                ),
                entry(
                    "both",
                    Userset::Intersection {
                        children: vec![Userset::Computed(or("a")), Userset::Computed(or("b"))],
                    },
                    vec![],
                ),
                entry(
                    "only_a",
                    Userset::Difference {
                        base: Box::new(Userset::Computed(or("a"))),
                        subtract: Box::new(Userset::Computed(or("b"))),
                    },
                    vec![],
                ),
            ],
        }],
    };
    let mut store = MemoryTupleStore::new();
    store.save(
        &"t1".to_string(),
        vec![
            tup("doc", "1", "a", "user", "alice", None),
            tup("doc", "1", "b", "user", "bob", None),
            tup("doc", "1", "a", "user", "carol", None),
            tup("doc", "1", "b", "user", "carol", None),
        ],
    );
    let checker = LocalChecker::new(store);

    let both_carol = checker
        .check(&request(ts_clone(&ts), key("doc", "1", "both", "user", "carol")))
        .unwrap();
    assert!(both_carol.allow);
    let both_alice = checker
        .check(&request(ts_clone(&ts), key("doc", "1", "both", "user", "alice")))
        .unwrap();
    assert!(!both_alice.allow);
    let only_alice = checker
        .check(&request(ts_clone(&ts), key("doc", "1", "only_a", "user", "alice")))
        .unwrap();
    assert!(only_alice.allow);
    let only_carol = checker
        .check(&request(ts_clone(&ts), key("doc", "1", "only_a", "user", "carol")))
        .unwrap();
    assert!(!only_carol.allow);
}

/// Rebuild a typesystem equal to the given one, relation by relation.
fn ts_clone(ts: &Typesystem) -> Typesystem {
    Typesystem {
        types: ts
            .types
            .iter()
            .map(|t| Type {
                name: t.name.clone(),
                relations: t
                    .relations
                    .iter()
                    .map(|e| RelationEntry {
                        name: e.name.clone(),
                        rewrite: us_clone(&e.rewrite),
                        metadata: RelationMetadata {
                            directly_related_user_types: e
                                .metadata
                                .directly_related_user_types
                                .iter()
                                .map(rr_clone)
                                .collect(),
                        },
                    })
                    .collect(),
            })
            .collect(),
    }
}

fn rr_clone(r: &RelationReference) -> RelationReference {
    match r {
        RelationReference::Direct(t) => RelationReference::Direct(t.clone()),
        RelationReference::Relation { typ, relation } => RelationReference::Relation {
            typ: typ.clone(),
            relation: relation.clone(),
        },
        RelationReference::Wildcard(t) => RelationReference::Wildcard(t.clone()),
    }
}

fn us_clone(u: &Userset) -> Userset {
    match u {
        Userset::This => Userset::This,
        Userset::Computed(o) => Userset::Computed(ObjectRelation {
            object: o.object.clone(),
            relation: o.relation.clone(),
        }),
        Userset::TupleTo(t) => Userset::TupleTo(TupleToUserset {
            tupleset: ObjectRelation {
                object: t.tupleset.object.clone(),
                relation: t.tupleset.relation.clone(),
            },
            computed_userset: ObjectRelation {
                object: t.computed_userset.object.clone(),
                relation: t.computed_userset.relation.clone(),
            },
        }),
        Userset::Union { children } => Userset::Union {
            children: children.iter().map(us_clone).collect(),
        },
        Userset::Intersection { children } => Userset::Intersection {
            children: children.iter().map(us_clone).collect(),
        },
        Userset::Difference { base, subtract } => Userset::Difference {
            base: Box::new(us_clone(base)),
            subtract: Box::new(us_clone(subtract)),
        },
    }
}
