use fga::expander::ExpandTree;
use fga::expander::Expander;
use fga::expander::ExpanderError;
use fga::model::ObjectRelation;
use fga::model::RelationEntry;
use fga::model::RelationMetadata;
use fga::model::RelationReference;
use fga::model::TupleToUserset;
use fga::model::Type;
use fga::model::Typesystem;
use fga::model::Userset;
use fga::objects_expander::ObjectsExpander;
use fga::storage::MemoryTupleStore;
use fga::tuple::Tuple;
use fga::users_expander::UsersExpander;

fn entry(name: &str, rewrite: Userset, refs: Vec<RelationReference>) -> RelationEntry {
    RelationEntry {
        name: name.to_string(),
        rewrite,
        metadata: RelationMetadata {
            directly_related_user_types: refs,
        },
    }
}

fn or(relation: &str) -> ObjectRelation {
    ObjectRelation {
        object: String::new(),
        relation: relation.to_string(),
    }
}

fn seed_model() -> Typesystem {
    Typesystem {
        types: vec![
            Type {
                name: "user".to_string(),
                relations: vec![],
            },
            Type {
                name: "group".to_string(),
                relations: vec![entry(
                    "member",
                    Userset::This,
                    vec![RelationReference::Direct("user".to_string())],
                )],
            },
            Type {
                name: "folder".to_string(),
                relations: vec![
                    entry(
                        "owner",
                        Userset::This,
                        vec![RelationReference::Direct("user".to_string())],
                    ),
                    entry(
                        "parent",
                        Userset::This,
                        vec![RelationReference::Direct("folder".to_string())],
                    ),
                    entry(
                        "viewer",
                        Userset::Union {
                            children: vec![
                                Userset::This,
                                Userset::Computed(or("owner")),
                                Userset::TupleTo(TupleToUserset {
                                    tupleset: or("parent"),
                                    computed_userset: or("viewer"),
                                }),
                            ],
                        },
                        vec![
                            RelationReference::Direct("user".to_string()),
                            RelationReference::Wildcard("user".to_string()),
                            RelationReference::Relation {
                                typ: "group".to_string(),
                                relation: "member".to_string(),
                            },
                        ],
                    ),
                ],
            },
        ],
    }
}

fn tup(ot: &str, oid: &str, rel: &str, ut: &str, uid: &str, urel: Option<&str>) -> Tuple {
    Tuple {
        user_type: ut.to_string(),
        user_id: uid.to_string(),
        user_relation: urel.map(|s| s.to_string()),
        relation: rel.to_string(),
        object_type: ot.to_string(),
        object_id: oid.to_string(),
    }
}

fn seed_store() -> MemoryTupleStore {
    let mut store = MemoryTupleStore::new();
    store.save(
        &"t1".to_string(),
        vec![
            tup("folder", "root", "owner", "user", "alice", None),
            tup("folder", "root", "viewer", "user", "*", None),
            tup("folder", "docs", "parent", "folder", "root", None),
            tup("group", "eng", "member", "user", "bob", None),
            tup("folder", "reports", "viewer", "group", "eng", Some("member")),
        ],
    );
    store
}

#[test]
fn expand_viewer_tree() {
    let expander = Expander::new(seed_store());
    let tree = expander
        .expand(
            &seed_model(),
            &"t1".to_string(),
            &"viewer".to_string(),
            &"folder".to_string(),
            &"root".to_string(),
        )
        .unwrap();
    match tree {
        ExpandTree::Union { children } => {
            assert_eq!(children.len(), 3);
            match &children[0] {
                ExpandTree::This(nodes) => {
                    assert_eq!(nodes.len(), 1);
                    assert_eq!(nodes[0].user_type, "user");
                    assert_eq!(nodes[0].user_id, "*");
                    assert!(nodes[0].user_relation.is_none());
                }
                other => panic!("expected a direct leaf, got {:?}", other),
            }
            match &children[1] {
                ExpandTree::Computed(node) => {
                    assert_eq!(node.user_type, "folder");
                    assert_eq!(node.user_id, "root");
                    assert_eq!(node.user_relation.as_deref(), Some("owner"));
                }
                other => panic!("expected a computed leaf, got {:?}", other),
            }
            match &children[2] {
                ExpandTree::TupleTo { tupleset, computed } => {
                    assert_eq!(tupleset.user_relation.as_deref(), Some("parent"));
                    assert!(computed.is_empty());
                }
                other => panic!("expected a tupleset branch, got {:?}", other),
            }
        }
        other => panic!("expected a union, got {:?}", other),
    }
}

#[test]
fn expand_users_test() {
    let expander = UsersExpander::new(seed_store());
    let users = expander
        .users(
            &seed_model(),
            &"t1".to_string(),
            &"viewer".to_string(),
            &"folder".to_string(),
            &"root".to_string(),
            &"user".to_string(),
            &None,
        )
        .unwrap();
    assert!(users.iter().any(|u| u == "alice"));
    assert!(users.iter().any(|u| u == "*"));
}

#[test]
fn expand_users_through_group() {
    let expander = UsersExpander::new(seed_store());
    let users = expander
        .users(
            &seed_model(),
            &"t1".to_string(),
            &"viewer".to_string(),
            &"folder".to_string(),
            &"reports".to_string(),
            &"user".to_string(),
            &None,
        )
        .unwrap();
    assert!(users.iter().any(|u| u == "bob"));
    assert!(!users.iter().any(|u| u == "alice"));
}

#[test]
fn expand_objects_test() {
    let expander = ObjectsExpander::new(seed_store());
    let objects = expander
        .objects(
            &seed_model(),
            &"t1".to_string(),
            &"viewer".to_string(),
            &"folder".to_string(),
            &"user".to_string(),
            &"alice".to_string(),
            &None,
        )
        .unwrap();
    assert!(objects.iter().any(|o| o == "root"));
    assert!(objects.iter().any(|o| o == "docs"));
}

#[test]
fn expand_objects_for_group_member() {
    let expander = ObjectsExpander::new(seed_store());
    let objects = expander
        .objects(
            &seed_model(),
            &"t1".to_string(),
            &"viewer".to_string(),
            &"folder".to_string(),
            &"user".to_string(),
            &"bob".to_string(),
            &None,
        )
        .unwrap();
    assert!(objects.iter().any(|o| o == "reports"));
}

#[test]
fn expand_rejects_userset_tupleset() {
    let ts = Typesystem {
        types: vec![
            Type {
                name: "user".to_string(),
                relations: vec![],
            },
            Type {
                name: "folder".to_string(),
                relations: vec![
                    entry(
                        "parent",
                        Userset::This,
                        vec![RelationReference::Wildcard("folder".to_string())],
                    ),
                    entry(
                        "view",
                        Userset::TupleTo(TupleToUserset {
                            tupleset: or("parent"),
                            computed_userset: or("view"),
                        }),
                        vec![RelationReference::Direct("user".to_string())],
                    ),
                ],
            },
        ],
    };
    let expander = UsersExpander::new(MemoryTupleStore::new());
    match expander.users(
        &ts,
        &"t1".to_string(),
        &"view".to_string(),
        &"folder".to_string(),
        &"root".to_string(),
        &"user".to_string(),
        &None,
    ) {
        Err(ExpanderError::NotOnlyDirect { tupleset }) => assert_eq!(tupleset, "parent"),
        other => panic!("expected a not-only-direct error, got {:?}", other),
    }
}

#[test]
fn expand_unknown_relation_errors() {
    let expander = Expander::new(MemoryTupleStore::new());
    match expander.expand(
        &seed_model(),
        &"t1".to_string(),
        &"bogus".to_string(),
        &"folder".to_string(),
        &"root".to_string(),
    ) {
        Err(ExpanderError::NotFoundRelation { relation }) => assert_eq!(relation, "bogus"),
        other => panic!("expected a missing-relation error, got {:?}", other),
    }
}

#[test]
fn expand_unknown_type_errors() {
    let expander = UsersExpander::new(MemoryTupleStore::new());
    match expander.users(
        &seed_model(),
        &"t1".to_string(),
        &"viewer".to_string(),
        &"document".to_string(),
        &"root".to_string(),
        &"user".to_string(),
        &None,
    ) {
        Err(ExpanderError::NotFoundRelations { object_type }) => {
            assert_eq!(object_type, "document")
        }
        other => panic!("expected a missing-type error, got {:?}", other),
    }
}

#[test]
fn expand_users_empty_store() {
    let expander = UsersExpander::new(MemoryTupleStore::new());
    let users = expander
        .users(
            &seed_model(),
            &"t1".to_string(),
            &"viewer".to_string(),
            &"folder".to_string(),
            &"root".to_string(),
            &"user".to_string(),
            &None,
        )
        .unwrap();
    assert!(users.is_empty());
}
