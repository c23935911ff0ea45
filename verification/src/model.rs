use vstd::prelude::*;

verus! {

/// A reference to another relation, used by rewrite leaves.
#[derive(Debug)]
pub struct ObjectRelation {
    pub object: String,
    pub relation: String,
}

/// A `TupleToUserset` rewrite: follow `tupleset` tuples on the object, then
/// check `computed_userset` on each object they reach.
#[derive(Debug)]
pub struct TupleToUserset {
    pub tupleset: ObjectRelation,
    pub computed_userset: ObjectRelation,
}

/// The rewrite tree of a relation.
#[derive(Debug)]
pub enum Userset {
    This,
    Computed(ObjectRelation),
    TupleTo(TupleToUserset),
    Union { children: Vec<Userset> },
    Intersection { children: Vec<Userset> },
    Difference { base: Box<Userset>, subtract: Box<Userset> },
}

/// The set operators a rewrite can compose sub-checks with.
#[derive(Clone, Debug, PartialEq, Eq, Structural)]
pub enum SetOperator {
    Union,
    Intersection,
    Exclusion,
}

/// What subject shapes may populate a relation's direct (`This`) leaf.
#[derive(Debug)]
pub enum RelationReference {
    Direct(String),
    Relation { typ: String, relation: String },
    Wildcard(String),
}

/// The declared direct types of one relation.
#[derive(Debug)]
pub struct RelationMetadata {
    pub directly_related_user_types: Vec<RelationReference>,
}

/// Same payload under the name the compiled relation carries.
#[derive(Debug)]
pub struct RelationTypeInfo {
    pub directly_related_user_types: Vec<RelationReference>,
}

/// A compiled relation: its rewrite and its direct-type metadata.
#[derive(Debug)]
pub struct Relation {
    pub rewrite: Userset,
    pub type_info: RelationTypeInfo,
}

/// One named entry of a type: a relation name, its rewrite and its metadata.
#[derive(Debug)]
pub struct RelationEntry {
    pub name: String,
    pub rewrite: Userset,
    pub metadata: RelationMetadata,
}

/// A compiled object type: a name and its relations, keyed by name.
#[derive(Debug)]
pub struct Type {
    pub name: String,
    pub relations: Vec<RelationEntry>,
}

/// A tenant of the service.
#[derive(Debug)]
pub struct Tenant {
    pub id: String,
    pub name: String,
}

/// A compiled authorization model: object types keyed by name.
#[derive(Debug)]
pub struct Typesystem {
    pub types: Vec<Type>,
}

/// Failures of model lookups.
#[derive(Clone, Debug)]
pub enum ModelError {
    NotFoundRelations(String),
    NotFoundRelation(String),
}

/// The mathematical image of a `ModelError`.
pub enum SpecModelErr {
    NotFoundRelations { object_type: Seq<char> },
    NotFoundRelation { relation: Seq<char> },
}

impl View for ModelError {
    type V = SpecModelErr;

    open spec fn view(&self) -> SpecModelErr {
        match self {
            ModelError::NotFoundRelations(t) => SpecModelErr::NotFoundRelations {
                object_type: t@,
            },
            ModelError::NotFoundRelation(r) => SpecModelErr::NotFoundRelation { relation: r@ },
        }
    }
}

/// First type of `types` whose name reads `name`.
pub open spec fn spec_find_type(types: Seq<Type>, name: Seq<char>) -> Option<Type>
    decreases types.len(),
{
    if types.len() == 0 {
        None
    } else if types[0].name@ == name {
        Some(types[0])
    } else {
        spec_find_type(types.drop_first(), name)
    }
}

/// First relation entry of `rels` whose name reads `name`.
pub open spec fn spec_find_relation(rels: Seq<RelationEntry>, name: Seq<char>) -> Option<
    RelationEntry,
>
    decreases rels.len(),
{
    if rels.len() == 0 {
        None
    } else if rels[0].name@ == name {
        Some(rels[0])
    } else {
        spec_find_relation(rels.drop_first(), name)
    }
}

/// The relation entry a typesystem holds for `(object_type, relation)`, if any.
pub open spec fn spec_get_relation(
    ts: Typesystem,
    object_type: Seq<char>,
    relation: Seq<char>,
) -> Result<RelationEntry, SpecModelErr> {
    match spec_find_type(ts.types@, object_type) {
        None => Err(SpecModelErr::NotFoundRelations { object_type }),
        Some(t) => match spec_find_relation(t.relations@, relation) {
            None => Err(SpecModelErr::NotFoundRelation { relation }),
            Some(r) => Ok(r),
        },
    }
}

impl Typesystem {
    /// Look up the type named `object_type`.
    pub fn find_type(&self, object_type: &String) -> (r: Option<&Type>)
        ensures
            match r {
                Some(t) => spec_find_type(self.types@, object_type@) == Some(*t),
                None => spec_find_type(self.types@, object_type@) is None,
            },
    {
        let n = self.types.len();
        let mut i: usize = 0;
        proof {
            assert(self.types@.skip(0) =~= self.types@);
        }
        while i < n
            invariant
                n == self.types@.len(),
                i <= n,
                spec_find_type(self.types@, object_type@) == spec_find_type(
                    self.types@.skip(i as int),
                    object_type@,
                ),
            decreases n - i,
        {
            proof {
                assert(self.types@.skip(i as int)[0] == self.types@[i as int]);
                assert(self.types@.skip(i as int).drop_first() =~= self.types@.skip(i + 1));
            }
            if self.types[i].name == *object_type {
                return Some(&self.types[i]);
            }
            i += 1;
        }
        None
    }

    /// Fetch the relation for `(object_type, relation)`, as the resolver does
    /// before dispatching on its rewrite.
    pub fn get_relation(&self, object_type: &String, relation: &String) -> (r: Result<
        &RelationEntry,
        ModelError,
    >)
        ensures
            match r {
                Ok(e) => spec_get_relation(*self, object_type@, relation@) == Ok::<
                    RelationEntry,
                    SpecModelErr,
                >(*e),
                Err(e) => spec_get_relation(*self, object_type@, relation@) == Err::<
                    RelationEntry,
                    SpecModelErr,
                >(e@),
            },
    {
        let t = match self.find_type(object_type) {
            Some(t) => t,
            None => {
                return Err(ModelError::NotFoundRelations(object_type.clone()));
            },
        };
        let n = t.relations.len();
        let mut i: usize = 0;
        proof {
            assert(t.relations@.skip(0) =~= t.relations@);
        }
        while i < n
            invariant
                n == t.relations@.len(),
                i <= n,
                spec_find_type(self.types@, object_type@) == Some(*t),
                spec_find_relation(t.relations@, relation@) == spec_find_relation(
                    t.relations@.skip(i as int),
                    relation@,
                ),
            decreases n - i,
        {
            proof {
                assert(t.relations@.skip(i as int)[0] == t.relations@[i as int]);
                assert(t.relations@.skip(i as int).drop_first() =~= t.relations@.skip(i + 1));
            }
            if t.relations[i].name == *relation {
                return Ok(&t.relations[i]);
            }
            i += 1;
        }
        Err(ModelError::NotFoundRelation(relation.clone()))
    }

    /// The declared direct types of `(object_type, relation)`.
    pub fn get_directly_related_types(&self, object_type: &String, relation: &String) -> (r:
        Result<&Vec<RelationReference>, ModelError>)
        ensures
            match r {
                Ok(refs) => spec_get_relation(*self, object_type@, relation@) matches Ok(e)
                    && e.metadata.directly_related_user_types == *refs,
                Err(e) => spec_get_relation(*self, object_type@, relation@) == Err::<
                    RelationEntry,
                    SpecModelErr,
                >(e@),
            },
    {
        match self.get_relation(object_type, relation) {
            Ok(e) => Ok(&e.metadata.directly_related_user_types),
            Err(e) => Err(e),
        }
    }
}

} // verus!
