use fga::schema_ast::Relationship;
use fga::schema_ast::RelationshipSet;

#[test]
fn test_relationship_compute_1() {
    let source = Relationship::Union {
        children: vec![
            Box::new(Relationship::SetExpr(RelationshipSet::Single("x".to_string()))),
            Box::new(Relationship::Union {
                children: vec![
                    Box::new(Relationship::SetExpr(RelationshipSet::Single("y".to_string()))),
                    Box::new(Relationship::Union {
                        children: vec![Box::new(Relationship::SetExpr(RelationshipSet::Single(
                            "z".to_string(),
                        )))],
                    }),
                ],
            }),
        ],
    };
    assert_eq!(
        source.compute(),
        Relationship::Union {
            children: vec![
                Box::new(Relationship::SetExpr(RelationshipSet::Single("x".to_string()))),
                Box::new(Relationship::SetExpr(RelationshipSet::Single("y".to_string()))),
                Box::new(Relationship::SetExpr(RelationshipSet::Single("z".to_string()))),
            ]
        }
    )
}

#[test]
fn test_relationship_compute_2() {
    let source = Relationship::Union {
        children: vec![
            Box::new(Relationship::SetExpr(RelationshipSet::Single("x".to_string()))),
            Box::new(Relationship::Union {
                children: vec![
                    Box::new(Relationship::SetExpr(RelationshipSet::Single("y".to_string()))),
                    Box::new(Relationship::Intersection {
                        children: vec![
                            Box::new(Relationship::SetExpr(RelationshipSet::Single(
                                "a".to_string(),
                            ))),
                            Box::new(Relationship::SetExpr(RelationshipSet::Single(
                                "b".to_string(),
                            ))),
                        ],
                    }),
                    Box::new(Relationship::Union {
                        children: vec![Box::new(Relationship::SetExpr(RelationshipSet::Single(
                            "z".to_string(),
                        )))],
                    }),
                ],
            }),
        ],
    };
    assert_eq!(
        source.compute(),
        Relationship::Union {
            children: vec![
                Box::new(Relationship::SetExpr(RelationshipSet::Single("x".to_string()))),
                Box::new(Relationship::SetExpr(RelationshipSet::Single("y".to_string()))),
                Box::new(Relationship::Intersection {
                    children: vec![
                        Box::new(Relationship::SetExpr(RelationshipSet::Single("a".to_string()))),
                        Box::new(Relationship::SetExpr(RelationshipSet::Single("b".to_string()))),
                    ],
                }),
                Box::new(Relationship::SetExpr(RelationshipSet::Single("z".to_string()))),
            ]
        }
    )
}

#[test]
fn test_relationship_compute_3() {
    let source = Relationship::Difference {
        base: Box::new(Relationship::Union {
            children: vec![
                Box::new(Relationship::SetExpr(RelationshipSet::Single("x".to_string()))),
                Box::new(Relationship::Union {
                    children: vec![
                        Box::new(Relationship::SetExpr(RelationshipSet::Single("y".to_string()))),
                        Box::new(Relationship::Intersection {
                            children: vec![
                                Box::new(Relationship::SetExpr(RelationshipSet::Single(
                                    "a".to_string(),
                                ))),
                                Box::new(Relationship::SetExpr(RelationshipSet::Single(
                                    "b".to_string(),
                                ))),
                            ],
                        }),
                        Box::new(Relationship::Union {
                            children: vec![Box::new(Relationship::SetExpr(
                                RelationshipSet::Single("z".to_string()),
                            ))],
                        }),
                    ],
                }),
            ],
        }),
        subtract: Box::new(Relationship::SetExpr(RelationshipSet::Single("c".to_string()))),
    };

    assert_eq!(
        source.compute(),
        Relationship::Difference {
            base: Box::new(Relationship::Union {
                children: vec![
                    Box::new(Relationship::SetExpr(RelationshipSet::Single("x".to_string()))),
                    Box::new(Relationship::SetExpr(RelationshipSet::Single("y".to_string()))),
                    Box::new(Relationship::Intersection {
                        children: vec![
                            Box::new(Relationship::SetExpr(RelationshipSet::Single(
                                "a".to_string()
                            ))),
                            Box::new(Relationship::SetExpr(RelationshipSet::Single(
                                "b".to_string()
                            ))),
                        ],
                    }),
                    Box::new(Relationship::SetExpr(RelationshipSet::Single("z".to_string()))),
                ]
            }),
            subtract: Box::new(Relationship::SetExpr(RelationshipSet::Single("c".to_string())))
        }
    )
}

#[test]
fn test_to_userset_leaf() {
    let rel = Relationship::SetExpr(RelationshipSet::Single("owner".to_string()));
    match rel.to_userset() {
        fga::model::Userset::Computed(or) => {
            assert_eq!(or.object, "");
            assert_eq!(or.relation, "owner");
        }
        _ => panic!("expected a computed userset"),
    }
}

#[test]
fn test_to_userset_set_ref() {
    let rel = Relationship::SetExpr(RelationshipSet::SetRef(
        "view".to_string(),
        "parent".to_string(),
    ));
    match rel.to_userset() {
        fga::model::Userset::TupleTo(ttu) => {
            assert_eq!(ttu.tupleset.relation, "parent");
            assert_eq!(ttu.computed_userset.relation, "view");
        }
        _ => panic!("expected a tuple-to-userset"),
    }
}

#[test]
fn test_schema_to_typesystem() {
    let schema = fga::schema_ast::Schema::new(vec![
        fga::schema_ast::SchemaUnit::Type(fga::schema_ast::Type::new(
            "group".to_string(),
            vec![
                fga::schema_ast::RelationOrPermission::Relation(fga::schema_ast::Relation {
                    name: "member".to_string(),
                    subjects: vec![
                        RelationshipSet::Single("user".to_string()),
                        RelationshipSet::SetRef("user".to_string(), "*".to_string()),
                        RelationshipSet::SetRef("group".to_string(), "member".to_string()),
                    ],
                }),
                fga::schema_ast::RelationOrPermission::Permission(fga::schema_ast::Permission {
                    name: "view".to_string(),
                    permission: Relationship::SetExpr(RelationshipSet::Single(
                        "member".to_string(),
                    )),
                }),
            ],
        )),
    ]);
    let ts = schema.to_typesystem();
    assert_eq!(ts.types.len(), 1);
    let t = &ts.types[0];
    assert_eq!(t.name, "group");
    assert_eq!(t.relations.len(), 2);
    assert_eq!(t.relations[0].name, "member");
    assert!(matches!(t.relations[0].rewrite, fga::model::Userset::This));
    let refs = &t.relations[0].metadata.directly_related_user_types;
    assert_eq!(refs.len(), 3);
    assert!(matches!(&refs[0], fga::model::RelationReference::Direct(u) if u == "user"));
    assert!(matches!(&refs[1], fga::model::RelationReference::Wildcard(u) if u == "user"));
    assert!(
        matches!(&refs[2], fga::model::RelationReference::Relation { typ, relation } if typ == "group" && relation == "member")
    );
    assert_eq!(t.relations[1].name, "view");
    assert!(matches!(
        &t.relations[1].rewrite,
        fga::model::Userset::Computed(or) if or.relation == "member"
    ));
}
