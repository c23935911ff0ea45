use vstd::prelude::*;

use crate::checker::DEFAULT_DEPTH;
use crate::checker::lemma_useq_height_bound;
use crate::checker::lemma_useq_height_drop;
use crate::checker::spec_uheight;
use crate::checker::spec_useq_height;
use crate::expander::ExpanderError;
use crate::expander::SpecExpErr;
use crate::expander::SpecLeafFilter;
use crate::expander::append_ids;
use crate::expander::empty_ids;
use crate::expander::list_leaf;
use crate::expander::model_err_to_expander;
use crate::expander::sift_ids;
use crate::expander::spec_id_set;
use crate::expander::spec_ids_result;
use crate::expander::spec_model_err_to_exp_err;
use crate::expander::spec_select_leaf;
use crate::expander::spec_user_ids_of;
use crate::expander::user_ids_of;
use crate::model::RelationReference;
use crate::model::Typesystem;
use crate::model::Userset;
use crate::model::spec_get_relation;
use crate::storage::MemoryTupleStore;
use crate::storage::StoredTuple;
use crate::tuple::Tuple;
use crate::tuple::spec_wildcard;

verus! {

/// The subject ids that hold `relation` on `(object_type, object_id)`, for
/// subjects of `user_type` (with `user_relation` for userset subjects):
/// the reverse expansion of one relation's rewrite, graph descents bounded
/// by `depth`.
pub open spec fn spec_users(
    ts: Typesystem,
    rows: Seq<StoredTuple>,
    tenant: Seq<char>,
    relation: String,
    object_type: String,
    object_id: String,
    user_type: String,
    user_relation: Option<String>,
    depth: nat,
) -> Result<Set<Seq<char>>, SpecExpErr> {
    match spec_get_relation(ts, object_type@, relation@) {
        Err(e) => Err(spec_model_err_to_exp_err(e)),
        Ok(entry) => spec_users_rewrite(
            ts,
            rows,
            tenant,
            entry.rewrite,
            relation,
            object_type,
            object_id,
            user_type,
            user_relation,
            depth,
        ),
    }
}

/// The subject set of one rewrite node.
pub open spec fn spec_users_rewrite(
    ts: Typesystem,
    rows: Seq<StoredTuple>,
    tenant: Seq<char>,
    rw: Userset,
    relation: String,
    object_type: String,
    object_id: String,
    user_type: String,
    user_relation: Option<String>,
    depth: nat,
) -> Result<Set<Seq<char>>, SpecExpErr>
    decreases depth, spec_uheight(rw) + 3, 2int,
{
    match rw {
        Userset::This => match spec_get_relation(ts, object_type@, relation@) {
            Err(e) => Err(spec_model_err_to_exp_err(e)),
            Ok(entry) => spec_users_refs(
                ts,
                rows,
                tenant,
                entry.metadata.directly_related_user_types@,
                relation,
                object_type,
                object_id,
                user_type,
                user_relation,
                depth,
            ),
        },
        Userset::Computed(or) => spec_users_descend(
            ts,
            rows,
            tenant,
            or.relation,
            object_type,
            object_id,
            user_type,
            user_relation,
            depth,
        ),
        Userset::TupleTo(ttu) => match spec_get_relation(
            ts,
            object_type@,
            ttu.tupleset.relation@,
        ) {
            Err(e) => Err(spec_model_err_to_exp_err(e)),
            Ok(entry) => spec_users_ttu_refs(
                ts,
                rows,
                tenant,
                entry.metadata.directly_related_user_types@,
                ttu.tupleset.relation,
                ttu.computed_userset.relation,
                object_type,
                object_id,
                user_type,
                user_relation,
                depth,
            ),
        },
        Userset::Union { children } => spec_users_union(
            ts,
            rows,
            tenant,
            children@,
            relation,
            object_type,
            object_id,
            user_type,
            user_relation,
            depth,
        ),
        Userset::Intersection { children } => spec_users_inter(
            ts,
            rows,
            tenant,
            children@,
            relation,
            object_type,
            object_id,
            user_type,
            user_relation,
            depth,
        ),
        Userset::Difference { base, subtract } => match spec_users_rewrite(
            ts,
            rows,
            tenant,
            *base,
            relation,
            object_type,
            object_id,
            user_type,
            user_relation,
            depth,
        ) {
            Err(e) => Err(e),
            Ok(b) => match spec_users_rewrite(
                ts,
                rows,
                tenant,
                *subtract,
                relation,
                object_type,
                object_id,
                user_type,
                user_relation,
                depth,
            ) {
                Err(e) => Err(e),
                Ok(s) => Ok(b.difference(s)),
            },
        },
    }
}

/// One graph descent: spend a depth unit, look the relation up and expand
/// its rewrite.  A descent past the budget contributes nothing, so a
/// self-referential rewrite unrolls to a bounded fixpoint.
pub open spec fn spec_users_descend(
    ts: Typesystem,
    rows: Seq<StoredTuple>,
    tenant: Seq<char>,
    relation: String,
    object_type: String,
    object_id: String,
    user_type: String,
    user_relation: Option<String>,
    depth: nat,
) -> Result<Set<Seq<char>>, SpecExpErr>
    decreases depth, 0nat, 0int,
{
    if depth == 0 {
        Ok(Set::empty())
    } else {
        match spec_get_relation(ts, object_type@, relation@) {
            Err(e) => Err(spec_model_err_to_exp_err(e)),
            Ok(entry) => spec_users_rewrite(
                ts,
                rows,
                tenant,
                entry.rewrite,
                relation,
                object_type,
                object_id,
                user_type,
                user_relation,
                (depth - 1) as nat,
            ),
        }
    }
}

/// The union over the declared direct references of a `This` leaf: each
/// reference the requested subject shape matches contributes one list call;
/// a userset reference of another type contributes the subjects reached
/// through its intermediate objects.
pub open spec fn spec_users_refs(
    ts: Typesystem,
    rows: Seq<StoredTuple>,
    tenant: Seq<char>,
    refs: Seq<RelationReference>,
    relation: String,
    object_type: String,
    object_id: String,
    user_type: String,
    user_relation: Option<String>,
    depth: nat,
) -> Result<Set<Seq<char>>, SpecExpErr>
    decreases depth, 1nat, refs.len() as int,
{
    if refs.len() == 0 {
        Ok(Set::empty())
    } else {
        let head: Result<Set<Seq<char>>, SpecExpErr> = match refs[0] {
            RelationReference::Direct(typ) => {
                if typ@ == user_type@ && user_relation is None {
                    Ok(
                        spec_user_ids_of(
                            spec_select_leaf(
                                rows,
                                tenant,
                                SpecLeafFilter {
                                    object_type_eq: Some(object_type@),
                                    object_id_eq: Some(object_id@),
                                    relation_eq: Some(relation@),
                                    user_type_eq: Some(typ@),
                                    user_id_eq: None,
                                    user_id_in: None,
                                    user_relation_eq: None,
                                    user_relation_is_null: Some(true),
                                },
                            ),
                        ),
                    )
                } else {
                    Ok(Set::empty())
                }
            },
            RelationReference::Wildcard(typ) => {
                if typ@ == user_type@ && user_relation is None {
                    Ok(
                        spec_user_ids_of(
                            spec_select_leaf(
                                rows,
                                tenant,
                                SpecLeafFilter {
                                    object_type_eq: Some(object_type@),
                                    object_id_eq: Some(object_id@),
                                    relation_eq: Some(relation@),
                                    user_type_eq: Some(typ@),
                                    user_id_eq: Some(spec_wildcard()),
                                    user_id_in: None,
                                    user_relation_eq: None,
                                    user_relation_is_null: Some(true),
                                },
                            ),
                        ),
                    )
                } else {
                    Ok(Set::empty())
                }
            },
            RelationReference::Relation { typ, relation: rrel } => {
                if typ@ == user_type@ && (user_relation matches Some(u) && u@ == rrel@) {
                    Ok(
                        spec_user_ids_of(
                            spec_select_leaf(
                                rows,
                                tenant,
                                SpecLeafFilter {
                                    object_type_eq: Some(object_type@),
                                    object_id_eq: Some(object_id@),
                                    relation_eq: Some(relation@),
                                    user_type_eq: Some(typ@),
                                    user_id_eq: None,
                                    user_id_in: None,
                                    user_relation_eq: Some(rrel@),
                                    user_relation_is_null: None,
                                },
                            ),
                        ),
                    )
                } else if typ@ != user_type@ {
                    spec_users_links(
                        ts,
                        rows,
                        tenant,
                        spec_select_leaf(
                            rows,
                            tenant,
                            SpecLeafFilter {
                                object_type_eq: Some(object_type@),
                                object_id_eq: Some(object_id@),
                                relation_eq: Some(relation@),
                                user_type_eq: Some(typ@),
                                user_id_eq: None,
                                user_id_in: None,
                                user_relation_eq: Some(rrel@),
                                user_relation_is_null: None,
                            },
                        ),
                        rrel,
                        typ,
                        user_type,
                        user_relation,
                        depth,
                    )
                } else {
                    Ok(Set::empty())
                }
            },
        };
        match head {
            Err(e) => Err(e),
            Ok(s) => match spec_users_refs(
                ts,
                rows,
                tenant,
                refs.drop_first(),
                relation,
                object_type,
                object_id,
                user_type,
                user_relation,
                depth,
            ) {
                Err(e) => Err(e),
                Ok(rest) => Ok(s.union(rest)),
            },
        }
    }
}

/// The union over the declared direct references of a tuple-to-userset
/// rewrite's tupleset: each must be a plain type; the subjects are those
/// holding the computed relation on the objects the tupleset tuples name.
pub open spec fn spec_users_ttu_refs(
    ts: Typesystem,
    rows: Seq<StoredTuple>,
    tenant: Seq<char>,
    refs: Seq<RelationReference>,
    tupleset_rel: String,
    computed_rel: String,
    object_type: String,
    object_id: String,
    user_type: String,
    user_relation: Option<String>,
    depth: nat,
) -> Result<Set<Seq<char>>, SpecExpErr>
    decreases depth, 1nat, refs.len() as int,
{
    if refs.len() == 0 {
        Ok(Set::empty())
    } else {
        match refs[0] {
            RelationReference::Direct(ot2) => {
                let head = spec_users_links(
                    ts,
                    rows,
                    tenant,
                    spec_select_leaf(
                        rows,
                        tenant,
                        SpecLeafFilter {
                            object_type_eq: Some(object_type@),
                            object_id_eq: Some(object_id@),
                            relation_eq: Some(tupleset_rel@),
                            user_type_eq: Some(ot2@),
                            user_id_eq: None,
                            user_id_in: None,
                            user_relation_eq: None,
                            user_relation_is_null: Some(true),
                        },
                    ),
                    computed_rel,
                    ot2,
                    user_type,
                    user_relation,
                    depth,
                );
                match head {
                    Err(e) => Err(e),
                    Ok(s) => match spec_users_ttu_refs(
                        ts,
                        rows,
                        tenant,
                        refs.drop_first(),
                        tupleset_rel,
                        computed_rel,
                        object_type,
                        object_id,
                        user_type,
                        user_relation,
                        depth,
                    ) {
                        Err(e) => Err(e),
                        Ok(rest) => Ok(s.union(rest)),
                    },
                }
            },
            _ => Err(SpecExpErr::NotOnlyDirect { tupleset: tupleset_rel@ }),
        }
    }
}

/// The union over the intermediate objects `links` name: the subjects that
/// hold `relation` on each `(typ, link.user_id)`, one depth unit down.
pub open spec fn spec_users_links(
    ts: Typesystem,
    rows: Seq<StoredTuple>,
    tenant: Seq<char>,
    links: Seq<Tuple>,
    relation: String,
    typ: String,
    user_type: String,
    user_relation: Option<String>,
    depth: nat,
) -> Result<Set<Seq<char>>, SpecExpErr>
    decreases depth, 0nat, links.len() as int,
{
    if links.len() == 0 {
        Ok(Set::empty())
    } else {
        match spec_users_descend(
            ts,
            rows,
            tenant,
            relation,
            typ,
            links[0].user_id,
            user_type,
            user_relation,
            depth,
        ) {
            Err(e) => Err(e),
            Ok(s) => match spec_users_links(
                ts,
                rows,
                tenant,
                links.drop_first(),
                relation,
                typ,
                user_type,
                user_relation,
                depth,
            ) {
                Err(e) => Err(e),
                Ok(rest) => Ok(s.union(rest)),
            },
        }
    }
}

/// The union of the children's subject sets.
pub open spec fn spec_users_union(
    ts: Typesystem,
    rows: Seq<StoredTuple>,
    tenant: Seq<char>,
    children: Seq<Userset>,
    relation: String,
    object_type: String,
    object_id: String,
    user_type: String,
    user_relation: Option<String>,
    depth: nat,
) -> Result<Set<Seq<char>>, SpecExpErr>
    decreases depth, spec_useq_height(children) + 3, children.len() as int,
    via spec_users_union_decreases
{
    if children.len() == 0 {
        Ok(Set::empty())
    } else {
        match spec_users_rewrite(
            ts,
            rows,
            tenant,
            children[0],
            relation,
            object_type,
            object_id,
            user_type,
            user_relation,
            depth,
        ) {
            Err(e) => Err(e),
            Ok(s) => match spec_users_union(
                ts,
                rows,
                tenant,
                children.drop_first(),
                relation,
                object_type,
                object_id,
                user_type,
                user_relation,
                depth,
            ) {
                Err(e) => Err(e),
                Ok(rest) => Ok(s.union(rest)),
            },
        }
    }
}

#[via_fn]
proof fn spec_users_union_decreases(
    ts: Typesystem,
    rows: Seq<StoredTuple>,
    tenant: Seq<char>,
    children: Seq<Userset>,
    relation: String,
    object_type: String,
    object_id: String,
    user_type: String,
    user_relation: Option<String>,
    depth: nat,
) {
    if children.len() > 0 {
        lemma_useq_height_bound(children, 0);
        lemma_useq_height_drop(children);
    }
}

/// The intersection of the children's subject sets; no children give the
/// empty set.
pub open spec fn spec_users_inter(
    ts: Typesystem,
    rows: Seq<StoredTuple>,
    tenant: Seq<char>,
    children: Seq<Userset>,
    relation: String,
    object_type: String,
    object_id: String,
    user_type: String,
    user_relation: Option<String>,
    depth: nat,
) -> Result<Set<Seq<char>>, SpecExpErr>
    decreases depth, spec_useq_height(children) + 3, children.len() as int,
    via spec_users_inter_decreases
{
    if children.len() == 0 {
        Ok(Set::empty())
    } else {
        match spec_users_rewrite(
            ts,
            rows,
            tenant,
            children[0],
            relation,
            object_type,
            object_id,
            user_type,
            user_relation,
            depth,
        ) {
            Err(e) => Err(e),
            Ok(s) => {
                if children.len() == 1 {
                    Ok(s)
                } else {
                    match spec_users_inter(
                        ts,
                        rows,
                        tenant,
                        children.drop_first(),
                        relation,
                        object_type,
                        object_id,
                        user_type,
                        user_relation,
                        depth,
                    ) {
                        Err(e) => Err(e),
                        Ok(rest) => Ok(s.intersect(rest)),
                    }
                }
            },
        }
    }
}

#[via_fn]
proof fn spec_users_inter_decreases(
    ts: Typesystem,
    rows: Seq<StoredTuple>,
    tenant: Seq<char>,
    children: Seq<Userset>,
    relation: String,
    object_type: String,
    object_id: String,
    user_type: String,
    user_relation: Option<String>,
    depth: nat,
) {
    if children.len() > 0 {
        lemma_useq_height_bound(children, 0);
        lemma_useq_height_drop(children);
    }
}

/// The reverse expander from objects to subjects: it enumerates the ids that
/// hold a relation on one object.
pub struct UsersExpander {
    pub tuple_reader: MemoryTupleStore,
}

impl UsersExpander {
    /// An expander over the given store.
    pub fn new(tuple_reader: MemoryTupleStore) -> (r: Self)
        ensures
            r.tuple_reader == tuple_reader,
    {
        UsersExpander { tuple_reader }
    }

    /// The ids of the `user_type` subjects that hold `relation` on
    /// `(object_type, object_id)`, with the default descent budget.  The
    /// returned list reads exactly as the specified subject set.
    pub fn users(
        &self,
        typesystem: &Typesystem,
        tenant_id: &String,
        relation: &String,
        object_type: &String,
        object_id: &String,
        user_type: &String,
        user_relation: &Option<String>,
    ) -> (r: Result<Vec<String>, ExpanderError>)
        ensures
            spec_ids_result(
                spec_users(
                    *typesystem,
                    self.tuple_reader.rows@,
                    tenant_id@,
                    *relation,
                    *object_type,
                    *object_id,
                    *user_type,
                    *user_relation,
                    DEFAULT_DEPTH as nat,
                ),
                r,
            ),
    {
        match typesystem.get_relation(object_type, relation) {
            Err(e) => Err(model_err_to_expander(e)),
            Ok(entry) => users_rewrite(
                &self.tuple_reader,
                typesystem,
                tenant_id,
                &entry.rewrite,
                relation,
                object_type,
                object_id,
                user_type,
                user_relation,
                DEFAULT_DEPTH,
            ),
        }
    }
}

/// Expand one rewrite node into its subject ids.
fn users_rewrite(
    store: &MemoryTupleStore,
    ts: &Typesystem,
    tenant_id: &String,
    rw: &Userset,
    relation: &String,
    object_type: &String,
    object_id: &String,
    user_type: &String,
    user_relation: &Option<String>,
    depth: u32,
) -> (r: Result<Vec<String>, ExpanderError>)
    ensures
        spec_ids_result(
            spec_users_rewrite(
                *ts,
                store.rows@,
                tenant_id@,
                *rw,
                *relation,
                *object_type,
                *object_id,
                *user_type,
                *user_relation,
                depth as nat,
            ),
            r,
        ),
    decreases depth, spec_uheight(*rw) + 3, 2int,
{
    match rw {
        Userset::This => {
            let refs = match ts.get_directly_related_types(object_type, relation) {
                Err(e) => {
                    return Err(model_err_to_expander(e));
                },
                Ok(refs) => refs,
            };
            proof {
                assert(refs@.skip(0) =~= refs@);
            }
            users_refs(
                store,
                ts,
                tenant_id,
                refs,
                0,
                relation,
                object_type,
                object_id,
                user_type,
                user_relation,
                depth,
            )
        },
        Userset::Computed(or) => users_descend(
            store,
            ts,
            tenant_id,
            &or.relation,
            object_type,
            object_id,
            user_type,
            user_relation,
            depth,
        ),
        Userset::TupleTo(ttu) => {
            let refs = match ts.get_directly_related_types(object_type, &ttu.tupleset.relation) {
                Err(e) => {
                    return Err(model_err_to_expander(e));
                },
                Ok(refs) => refs,
            };
            proof {
                assert(refs@.skip(0) =~= refs@);
            }
            users_ttu_refs(
                store,
                ts,
                tenant_id,
                refs,
                0,
                &ttu.tupleset.relation,
                &ttu.computed_userset.relation,
                object_type,
                object_id,
                user_type,
                user_relation,
                depth,
            )
        },
        Userset::Union { children } => {
            proof {
                assert(children@.skip(0) =~= children@);
            }
            users_union(
                store,
                ts,
                tenant_id,
                children,
                0,
                relation,
                object_type,
                object_id,
                user_type,
                user_relation,
                depth,
            )
        },
        Userset::Intersection { children } => {
            proof {
                assert(children@.skip(0) =~= children@);
            }
            users_inter(
                store,
                ts,
                tenant_id,
                children,
                0,
                relation,
                object_type,
                object_id,
                user_type,
                user_relation,
                depth,
            )
        },
        Userset::Difference { base, subtract } => {
            let b = match users_rewrite(
                store,
                ts,
                tenant_id,
                base,
                relation,
                object_type,
                object_id,
                user_type,
                user_relation,
                depth,
            ) {
                Err(e) => {
                    return Err(e);
                },
                Ok(b) => b,
            };
            match users_rewrite(
                store,
                ts,
                tenant_id,
                subtract,
                relation,
                object_type,
                object_id,
                user_type,
                user_relation,
                depth,
            ) {
                Err(e) => Err(e),
                Ok(s) => Ok(sift_ids(b, &s, false)),
            }
        },
    }
}

/// One graph descent of the expansion.
fn users_descend(
    store: &MemoryTupleStore,
    ts: &Typesystem,
    tenant_id: &String,
    relation: &String,
    object_type: &String,
    object_id: &String,
    user_type: &String,
    user_relation: &Option<String>,
    depth: u32,
) -> (r: Result<Vec<String>, ExpanderError>)
    ensures
        spec_ids_result(
            spec_users_descend(
                *ts,
                store.rows@,
                tenant_id@,
                *relation,
                *object_type,
                *object_id,
                *user_type,
                *user_relation,
                depth as nat,
            ),
            r,
        ),
    decreases depth, 0nat, 0int,
{
    if depth == 0 {
        return Ok(empty_ids());
    }
    match ts.get_relation(object_type, relation) {
        Err(e) => Err(model_err_to_expander(e)),
        Ok(entry) => users_rewrite(
            store,
            ts,
            tenant_id,
            &entry.rewrite,
            relation,
            object_type,
            object_id,
            user_type,
            user_relation,
            depth - 1,
        ),
    }
}

/// The union over the declared references from `from` on.
fn users_refs(
    store: &MemoryTupleStore,
    ts: &Typesystem,
    tenant_id: &String,
    refs: &Vec<RelationReference>,
    from: usize,
    relation: &String,
    object_type: &String,
    object_id: &String,
    user_type: &String,
    user_relation: &Option<String>,
    depth: u32,
) -> (r: Result<Vec<String>, ExpanderError>)
    requires
        from <= refs@.len(),
    ensures
        spec_ids_result(
            spec_users_refs(
                *ts,
                store.rows@,
                tenant_id@,
                refs@.skip(from as int),
                *relation,
                *object_type,
                *object_id,
                *user_type,
                *user_relation,
                depth as nat,
            ),
            r,
        ),
    decreases depth, 1nat, refs@.len() - from,
{
    if from == refs.len() {
        proof {
            assert(refs@.skip(from as int) =~= Seq::<RelationReference>::empty());
        }
        return Ok(empty_ids());
    }
    proof {
        assert(refs@.skip(from as int)[0] == refs@[from as int]);
        assert(refs@.skip(from as int).drop_first() =~= refs@.skip(from as int + 1));
    }
    let head = match &refs[from] {
        RelationReference::Direct(typ) => {
            if *typ == *user_type && user_relation.is_none() {
                let listed = list_leaf(
                    store,
                    tenant_id,
                    Some(object_type.clone()),
                    Some(object_id.clone()),
                    Some(relation.clone()),
                    Some(typ.clone()),
                    None,
                    None,
                    None,
                    Some(true),
                );
                Ok(user_ids_of(&listed))
            } else {
                Ok(empty_ids())
            }
        },
        RelationReference::Wildcard(typ) => {
            if *typ == *user_type && user_relation.is_none() {
                let listed = list_leaf(
                    store,
                    tenant_id,
                    Some(object_type.clone()),
                    Some(object_id.clone()),
                    Some(relation.clone()),
                    Some(typ.clone()),
                    Some(crate::tuple::wildcard_string()),
                    None,
                    None,
                    Some(true),
                );
                Ok(user_ids_of(&listed))
            } else {
                Ok(empty_ids())
            }
        },
        RelationReference::Relation { typ, relation: rrel } => {
            let urel_matches = match user_relation {
                Some(u) => *u == *rrel,
                None => false,
            };
            if *typ == *user_type && urel_matches {
                let listed = list_leaf(
                    store,
                    tenant_id,
                    Some(object_type.clone()),
                    Some(object_id.clone()),
                    Some(relation.clone()),
                    Some(typ.clone()),
                    None,
                    None,
                    Some(rrel.clone()),
                    None,
                );
                Ok(user_ids_of(&listed))
            } else if !(*typ == *user_type) {
                let links = list_leaf(
                    store,
                    tenant_id,
                    Some(object_type.clone()),
                    Some(object_id.clone()),
                    Some(relation.clone()),
                    Some(typ.clone()),
                    None,
                    None,
                    Some(rrel.clone()),
                    None,
                );
                proof {
                    assert(links@.skip(0) =~= links@);
                }
                users_links(
                    store,
                    ts,
                    tenant_id,
                    &links,
                    0,
                    rrel,
                    typ,
                    user_type,
                    user_relation,
                    depth,
                )
            } else {
                Ok(empty_ids())
            }
        },
    };
    match head {
        Err(e) => Err(e),
        Ok(s) => {
            proof {
                assert(spec_id_set(Seq::<String>::empty()) =~= Set::<Seq<char>>::empty());
            }
            match users_refs(
                store,
                ts,
                tenant_id,
                refs,
                from + 1,
                relation,
                object_type,
                object_id,
                user_type,
                user_relation,
                depth,
            ) {
                Err(e) => Err(e),
                Ok(rest) => Ok(append_ids(s, rest)),
            }
        },
    }
}

/// The union over the tupleset's declared references from `from` on.
fn users_ttu_refs(
    store: &MemoryTupleStore,
    ts: &Typesystem,
    tenant_id: &String,
    refs: &Vec<RelationReference>,
    from: usize,
    tupleset_rel: &String,
    computed_rel: &String,
    object_type: &String,
    object_id: &String,
    user_type: &String,
    user_relation: &Option<String>,
    depth: u32,
) -> (r: Result<Vec<String>, ExpanderError>)
    requires
        from <= refs@.len(),
    ensures
        spec_ids_result(
            spec_users_ttu_refs(
                *ts,
                store.rows@,
                tenant_id@,
                refs@.skip(from as int),
                *tupleset_rel,
                *computed_rel,
                *object_type,
                *object_id,
                *user_type,
                *user_relation,
                depth as nat,
            ),
            r,
        ),
    decreases depth, 1nat, refs@.len() - from,
{
    if from == refs.len() {
        proof {
            assert(refs@.skip(from as int) =~= Seq::<RelationReference>::empty());
        }
        return Ok(empty_ids());
    }
    proof {
        assert(refs@.skip(from as int)[0] == refs@[from as int]);
        assert(refs@.skip(from as int).drop_first() =~= refs@.skip(from as int + 1));
    }
    match &refs[from] {
        RelationReference::Direct(ot2) => {
            let links = list_leaf(
                store,
                tenant_id,
                Some(object_type.clone()),
                Some(object_id.clone()),
                Some(tupleset_rel.clone()),
                Some(ot2.clone()),
                None,
                None,
                None,
                Some(true),
            );
            proof {
                assert(links@.skip(0) =~= links@);
            }
            match users_links(
                store,
                ts,
                tenant_id,
                &links,
                0,
                computed_rel,
                ot2,
                user_type,
                user_relation,
                depth,
            ) {
                Err(e) => Err(e),
                Ok(s) => {
                    match users_ttu_refs(
                        store,
                        ts,
                        tenant_id,
                        refs,
                        from + 1,
                        tupleset_rel,
                        computed_rel,
                        object_type,
                        object_id,
                        user_type,
                        user_relation,
                        depth,
                    ) {
                        Err(e) => Err(e),
                        Ok(rest) => Ok(append_ids(s, rest)),
                    }
                },
            }
        },
        _ => Err(ExpanderError::NotOnlyDirect { tupleset: tupleset_rel.clone() }),
    }
}

/// The union over the intermediate objects from `from` on.
fn users_links(
    store: &MemoryTupleStore,
    ts: &Typesystem,
    tenant_id: &String,
    links: &Vec<Tuple>,
    from: usize,
    relation: &String,
    typ: &String,
    user_type: &String,
    user_relation: &Option<String>,
    depth: u32,
) -> (r: Result<Vec<String>, ExpanderError>)
    requires
        from <= links@.len(),
    ensures
        spec_ids_result(
            spec_users_links(
                *ts,
                store.rows@,
                tenant_id@,
                links@.skip(from as int),
                *relation,
                *typ,
                *user_type,
                *user_relation,
                depth as nat,
            ),
            r,
        ),
    decreases depth, 0nat, links@.len() - from,
{
    if from == links.len() {
        proof {
            assert(links@.skip(from as int) =~= Seq::<Tuple>::empty());
        }
        return Ok(empty_ids());
    }
    proof {
        assert(links@.skip(from as int)[0] == links@[from as int]);
        assert(links@.skip(from as int).drop_first() =~= links@.skip(from as int + 1));
    }
    match users_descend(
        store,
        ts,
        tenant_id,
        relation,
        typ,
        &links[from].user_id,
        user_type,
        user_relation,
        depth,
    ) {
        Err(e) => Err(e),
        Ok(s) => {
            match users_links(
                store,
                ts,
                tenant_id,
                links,
                from + 1,
                relation,
                typ,
                user_type,
                user_relation,
                depth,
            ) {
                Err(e) => Err(e),
                Ok(rest) => Ok(append_ids(s, rest)),
            }
        },
    }
}

/// The union over the child rewrites from `from` on.
fn users_union(
    store: &MemoryTupleStore,
    ts: &Typesystem,
    tenant_id: &String,
    children: &Vec<Userset>,
    from: usize,
    relation: &String,
    object_type: &String,
    object_id: &String,
    user_type: &String,
    user_relation: &Option<String>,
    depth: u32,
) -> (r: Result<Vec<String>, ExpanderError>)
    requires
        from <= children@.len(),
    ensures
        spec_ids_result(
            spec_users_union(
                *ts,
                store.rows@,
                tenant_id@,
                children@.skip(from as int),
                *relation,
                *object_type,
                *object_id,
                *user_type,
                *user_relation,
                depth as nat,
            ),
            r,
        ),
    decreases depth, spec_useq_height(children@.skip(from as int)) + 3, children@.len() - from,
{
    if from == children.len() {
        proof {
            assert(children@.skip(from as int) =~= Seq::<Userset>::empty());
        }
        return Ok(empty_ids());
    }
    proof {
        assert(children@.skip(from as int)[0] == children@[from as int]);
        assert(children@.skip(from as int).drop_first() =~= children@.skip(from as int + 1));
        lemma_useq_height_bound(children@.skip(from as int), 0);
        lemma_useq_height_drop(children@.skip(from as int));
    }
    match users_rewrite(
        store,
        ts,
        tenant_id,
        &children[from],
        relation,
        object_type,
        object_id,
        user_type,
        user_relation,
        depth,
    ) {
        Err(e) => Err(e),
        Ok(s) => {
            match users_union(
                store,
                ts,
                tenant_id,
                children,
                from + 1,
                relation,
                object_type,
                object_id,
                user_type,
                user_relation,
                depth,
            ) {
                Err(e) => Err(e),
                Ok(rest) => Ok(append_ids(s, rest)),
            }
        },
    }
}

/// The intersection over the child rewrites from `from` on.
fn users_inter(
    store: &MemoryTupleStore,
    ts: &Typesystem,
    tenant_id: &String,
    children: &Vec<Userset>,
    from: usize,
    relation: &String,
    object_type: &String,
    object_id: &String,
    user_type: &String,
    user_relation: &Option<String>,
    depth: u32,
) -> (r: Result<Vec<String>, ExpanderError>)
    requires
        from <= children@.len(),
    ensures
        spec_ids_result(
            spec_users_inter(
                *ts,
                store.rows@,
                tenant_id@,
                children@.skip(from as int),
                *relation,
                *object_type,
                *object_id,
                *user_type,
                *user_relation,
                depth as nat,
            ),
            r,
        ),
    decreases depth, spec_useq_height(children@.skip(from as int)) + 3, children@.len() - from,
{
    if from == children.len() {
        proof {
            assert(children@.skip(from as int) =~= Seq::<Userset>::empty());
        }
        return Ok(empty_ids());
    }
    proof {
        assert(children@.skip(from as int)[0] == children@[from as int]);
        assert(children@.skip(from as int).drop_first() =~= children@.skip(from as int + 1));
        lemma_useq_height_bound(children@.skip(from as int), 0);
        lemma_useq_height_drop(children@.skip(from as int));
    }
    match users_rewrite(
        store,
        ts,
        tenant_id,
        &children[from],
        relation,
        object_type,
        object_id,
        user_type,
        user_relation,
        depth,
    ) {
        Err(e) => Err(e),
        Ok(s) => {
            if from + 1 == children.len() {
                proof {
                    assert(children@.skip(from as int).len() == 1);
                }
                Ok(s)
            } else {
                match users_inter(
                    store,
                    ts,
                    tenant_id,
                    children,
                    from + 1,
                    relation,
                    object_type,
                    object_id,
                    user_type,
                    user_relation,
                    depth,
                ) {
                    Err(e) => Err(e),
                    Ok(rest) => Ok(sift_ids(s, &rest, true)),
                }
            }
        },
    }
}

} // verus!
