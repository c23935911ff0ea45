use vstd::prelude::*;

use crate::model::RelationReference;
use crate::model::SpecModelErr;
use crate::model::Typesystem;
use crate::model::Userset;
use crate::model::spec_get_relation;
use crate::storage::StoredTuple;
use crate::tuple::Tuple;
use crate::tuple::TupleKey;
use crate::tuple::spec_path_fingerprint;
use crate::tuple::spec_wildcard;

verus! {

/// Resource bookkeeping of one check: the remaining recursion budget and the
/// datastore reads made so far.
#[derive(Clone, Copy, Debug)]
pub struct ResolutionMetadata {
    pub depth: u32,
    pub datastore_query_count: u32,
}

/// The default recursion budget of a check.
pub const DEFAULT_DEPTH: u32 = 25;

impl Default for ResolutionMetadata {
    /// The default bookkeeping: a fresh budget, no reads yet.
    fn default() -> (r: Self)
        ensures
            r.depth == DEFAULT_DEPTH,
            r.datastore_query_count == 0,
    {
        ResolutionMetadata { depth: DEFAULT_DEPTH, datastore_query_count: 0 }
    }
}

/// The outcome of a check: the decision and the reads it cost.
#[derive(Clone, Copy, Debug)]
pub struct CheckResult {
    pub allow: bool,
    pub resolution_metadata: ResolutionMetadata,
}

impl CheckResult {
    /// A result with the given decision and no recorded reads.
    pub fn new(allow: bool) -> (r: CheckResult)
        ensures
            r.allow == allow,
            r.resolution_metadata.datastore_query_count == 0,
    {
        CheckResult { allow, resolution_metadata: ResolutionMetadata::default() }
    }

    /// A result with the given decision and datastore query count.
    pub fn new_dqc(allow: bool, count: u32) -> (r: CheckResult)
        ensures
            r.allow == allow,
            r.resolution_metadata.datastore_query_count == count,
    {
        CheckResult {
            allow,
            resolution_metadata: ResolutionMetadata { depth: DEFAULT_DEPTH, datastore_query_count: count },
        }
    }
}

/// One check request: the compiled model, the key to decide, request-scoped
/// tuples, the resource budget, and the fingerprints already on the descent
/// path.
#[derive(Debug)]
pub struct CheckRequest {
    pub tenant_id: String,
    pub model_id: String,
    pub typesystem: Typesystem,
    pub tuple_key: TupleKey,
    pub contextual_tuples: Vec<TupleKey>,
    pub resolution_metadata: ResolutionMetadata,
    pub visited_paths: Vec<String>,
}

/// Failures of the check resolver.  A deny is a decision; these are the
/// absence of one.
#[derive(Clone, Debug)]
pub enum CheckerError {
    NotFoundRelations { object_type: String },
    NotFoundRelation { relation: String },
    NotFoundThisTypes { object_type: String, relation: String },
    DepthExceeded,
}

/// The mathematical image of a `CheckerError`.
pub enum SpecCheckErr {
    NotFoundRelations { object_type: Seq<char> },
    NotFoundRelation { relation: Seq<char> },
    NotFoundThisTypes { object_type: Seq<char>, relation: Seq<char> },
    DepthExceeded,
}

impl View for CheckerError {
    type V = SpecCheckErr;

    open spec fn view(&self) -> SpecCheckErr {
        match self {
            CheckerError::NotFoundRelations { object_type } => SpecCheckErr::NotFoundRelations {
                object_type: object_type@,
            },
            CheckerError::NotFoundRelation { relation } => SpecCheckErr::NotFoundRelation {
                relation: relation@,
            },
            CheckerError::NotFoundThisTypes { object_type, relation } => SpecCheckErr::NotFoundThisTypes {
                object_type: object_type@,
                relation: relation@,
            },
            CheckerError::DepthExceeded => SpecCheckErr::DepthExceeded,
        }
    }
}

/// How a failed model lookup surfaces from the resolver.
pub open spec fn spec_model_err_to_check_err(e: SpecModelErr) -> SpecCheckErr {
    match e {
        SpecModelErr::NotFoundRelations { object_type } => SpecCheckErr::NotFoundRelations {
            object_type,
        },
        SpecModelErr::NotFoundRelation { relation } => SpecCheckErr::NotFoundRelation { relation },
    }
}

/// A decided check at the specification level: the decision and the exact
/// number of datastore list calls it took.
pub struct SpecOutcome {
    pub allow: bool,
    pub queries: nat,
}

/// A query count clipped to what a `u32` can report.
pub open spec fn spec_sat32(n: nat) -> nat {
    if n > u32::MAX {
        u32::MAX as nat
    } else {
        n
    }
}

/// Everything a check reads but never writes: the compiled model, the store
/// rows, the tenant under scrutiny and the request's contextual tuples.
pub struct EvalCtx {
    pub ts: Typesystem,
    pub rows: Seq<StoredTuple>,
    pub tenant: Seq<char>,
    pub ctx: Seq<Tuple>,
}

/// Does the declared reference `r` make the stored subject of `t` relevant
/// to a check of `key`?  A plain or wildcard reference admits subjects of
/// the request's own type and id (or the wildcard id).  A userset reference
/// admits the userset subjects of its declared relation: those of another
/// type are followed recursively, those of the request's own type only when
/// the request's subject is such a userset itself.
pub open spec fn spec_subject_ref_match(r: RelationReference, key: TupleKey, t: Tuple) -> bool {
    match r {
        RelationReference::Direct(typ) => typ@ == key.user_type@ && t.user_type@ == typ@
            && t.user_id@ == key.user_id@,
        RelationReference::Relation { typ, relation } => (if typ@ == key.user_type@ {
            relation@ == key.user_relation@
        } else {
            true
        }) && t.user_type@ == typ@ && (t.user_relation matches Some(ur) && ur@ == relation@),
        RelationReference::Wildcard(typ) => typ@ == key.user_type@ && t.user_type@ == typ@ && (
        t.user_id@ == key.user_id@ || t.user_id@ == spec_wildcard()),
    }
}

/// Does some declared direct reference accept `t` as a subject for `key`?
pub open spec fn spec_subject_refs_match(
    refs: Seq<RelationReference>,
    key: TupleKey,
    t: Tuple,
) -> bool {
    exists|i: int| 0 <= i < refs.len() && spec_subject_ref_match(refs[i], key, t)
}

/// The filter a direct check runs: the object scope of `key` plus the
/// disjunction of subject shapes drawn from `refs`.
pub open spec fn spec_direct_tuple_match(
    key: TupleKey,
    refs: Seq<RelationReference>,
    t: Tuple,
) -> bool {
    t.object_type@ == key.object_type@ && t.object_id@ == key.object_id@ && t.relation@
        == key.relation@ && spec_subject_refs_match(refs, key, t)
}

/// The filter a tuple-to-userset check runs: the object of `key` with the
/// tupleset relation `tsrel`.
pub open spec fn spec_ttu_tuple_match(key: TupleKey, tsrel: Seq<char>, t: Tuple) -> bool {
    t.object_type@ == key.object_type@ && t.object_id@ == key.object_id@ && t.relation@ == tsrel
}

/// The store rows of `tenant` whose tuples a direct check's filter returns,
/// in row order.
pub open spec fn spec_select_direct(
    rows: Seq<StoredTuple>,
    tenant: Seq<char>,
    key: TupleKey,
    refs: Seq<RelationReference>,
) -> Seq<Tuple>
    decreases rows.len(),
{
    if rows.len() == 0 {
        Seq::empty()
    } else {
        let rest = spec_select_direct(rows.drop_first(), tenant, key, refs);
        if rows[0].tenant_id@ == tenant && spec_direct_tuple_match(key, refs, rows[0].tuple) {
            seq![rows[0].tuple] + rest
        } else {
            rest
        }
    }
}

/// The contextual tuples a direct check's filter returns, in order.
pub open spec fn spec_select_direct_ctx(
    ctx: Seq<Tuple>,
    key: TupleKey,
    refs: Seq<RelationReference>,
) -> Seq<Tuple>
    decreases ctx.len(),
{
    if ctx.len() == 0 {
        Seq::empty()
    } else {
        let rest = spec_select_direct_ctx(ctx.drop_first(), key, refs);
        if spec_direct_tuple_match(key, refs, ctx[0]) {
            seq![ctx[0]] + rest
        } else {
            rest
        }
    }
}

/// The store rows a tuple-to-userset filter returns, in row order.
pub open spec fn spec_select_ttu(
    rows: Seq<StoredTuple>,
    tenant: Seq<char>,
    key: TupleKey,
    tsrel: Seq<char>,
) -> Seq<Tuple>
    decreases rows.len(),
{
    if rows.len() == 0 {
        Seq::empty()
    } else {
        let rest = spec_select_ttu(rows.drop_first(), tenant, key, tsrel);
        if rows[0].tenant_id@ == tenant && spec_ttu_tuple_match(key, tsrel, rows[0].tuple) {
            seq![rows[0].tuple] + rest
        } else {
            rest
        }
    }
}

/// The contextual tuples a tuple-to-userset filter returns, in order.
pub open spec fn spec_select_ttu_ctx(ctx: Seq<Tuple>, key: TupleKey, tsrel: Seq<char>) -> Seq<
    Tuple,
>
    decreases ctx.len(),
{
    if ctx.len() == 0 {
        Seq::empty()
    } else {
        let rest = spec_select_ttu_ctx(ctx.drop_first(), key, tsrel);
        if spec_ttu_tuple_match(key, tsrel, ctx[0]) {
            seq![ctx[0]] + rest
        } else {
            rest
        }
    }
}

/// Everything one direct-check list call returns: matching persisted tuples
/// of the tenant, then matching contextual tuples.
pub open spec fn spec_listed_direct(c: EvalCtx, key: TupleKey, refs: Seq<RelationReference>) -> Seq<
    Tuple,
> {
    spec_select_direct(c.rows, c.tenant, key, refs) + spec_select_direct_ctx(c.ctx, key, refs)
}

/// Everything one tuple-to-userset list call returns.
pub open spec fn spec_listed_ttu(c: EvalCtx, key: TupleKey, tsrel: Seq<char>) -> Seq<Tuple> {
    spec_select_ttu(c.rows, c.tenant, key, tsrel) + spec_select_ttu_ctx(c.ctx, key, tsrel)
}

/// Does some listed tuple decide the check directly in the subject's favour?
/// Only tuples without a `user_relation` decide directly, and only for a
/// plain request subject.
pub open spec fn spec_direct_grant(key: TupleKey, listed: Seq<Tuple>) -> bool {
    key.user_relation@.len() == 0 && exists|i: int|
        0 <= i < listed.len() && (#[trigger] listed[i]).user_relation is None
            && listed[i].user_type@ == key.user_type@ && (listed[i].user_id@ == key.user_id@
            || listed[i].user_id@ == spec_wildcard())
}

/// The sub-check keys drawn from the userset references among `listed`:
/// does the request subject hold `t.user_relation` on `t.user_type:t.user_id`?
pub open spec fn spec_userset_subkeys(key: TupleKey, listed: Seq<Tuple>) -> Seq<TupleKey>
    decreases listed.len(),
{
    if listed.len() == 0 {
        Seq::empty()
    } else {
        let rest = spec_userset_subkeys(key, listed.drop_first());
        match listed[0].user_relation {
            Some(ur) => seq![
                TupleKey {
                    user_type: key.user_type,
                    user_id: key.user_id,
                    user_relation: key.user_relation,
                    relation: ur,
                    object_type: listed[0].user_type,
                    object_id: listed[0].user_id,
                },
            ] + rest,
            None => rest,
        }
    }
}

/// The sub-check keys of a tuple-to-userset rewrite: for each listed tuple
/// with a plain subject, check `computed` on the object it names.
pub open spec fn spec_ttu_subkeys(key: TupleKey, computed: String, listed: Seq<Tuple>) -> Seq<
    TupleKey,
>
    decreases listed.len(),
{
    if listed.len() == 0 {
        Seq::empty()
    } else {
        let rest = spec_ttu_subkeys(key, computed, listed.drop_first());
        match listed[0].user_relation {
            Some(_) => rest,
            None => seq![
                TupleKey {
                    user_type: key.user_type,
                    user_id: key.user_id,
                    user_relation: key.user_relation,
                    relation: computed,
                    object_type: listed[0].user_type,
                    object_id: listed[0].user_id,
                },
            ] + rest,
        }
    }
}

/// The height of a rewrite tree, used as a termination measure.
pub open spec fn spec_uheight(u: Userset) -> nat
    decreases u,
{
    match u {
        Userset::This => 0,
        Userset::Computed(_) => 0,
        Userset::TupleTo(_) => 0,
        Userset::Union { children } => spec_useq_height(children@) + 1,
        Userset::Intersection { children } => spec_useq_height(children@) + 1,
        Userset::Difference { base, subtract } => if spec_uheight(*base) >= spec_uheight(*subtract) {
            spec_uheight(*base) + 1
        } else {
            spec_uheight(*subtract) + 1
        },
    }
}

/// A strict upper bound on the heights of the rewrites in `s`.
pub open spec fn spec_useq_height(s: Seq<Userset>) -> nat
    decreases s,
{
    if s.len() == 0 {
        0
    } else {
        let h0 = spec_uheight(s[0]) + 1;
        let hr = spec_useq_height(s.drop_first());
        if h0 >= hr {
            h0
        } else {
            hr
        }
    }
}

/// Every element of `s` sits strictly below `spec_useq_height(s)`.
pub proof fn lemma_useq_height_bound(s: Seq<Userset>, i: int)
    requires
        0 <= i < s.len(),
    ensures
        spec_uheight(s[i]) < spec_useq_height(s),
    decreases s.len(),
{
    if i == 0 {
    } else {
        lemma_useq_height_bound(s.drop_first(), i - 1);
        assert(s.drop_first()[i - 1] == s[i]);
    }
}

/// Dropping elements never raises the height bound.
pub proof fn lemma_useq_height_drop(s: Seq<Userset>)
    requires
        s.len() > 0,
    ensures
        spec_useq_height(s.drop_first()) <= spec_useq_height(s),
{
}

/// What one check of `key` evaluates to: the decision and its exact list-call
/// count, or the error that ends it.  `depth` is the remaining recursion
/// budget and `visited` the fingerprints on the current descent path.
pub open spec fn spec_eval_rewrite(
    c: EvalCtx,
    key: TupleKey,
    rw: Userset,
    depth: nat,
    visited: Set<Seq<char>>,
) -> Result<SpecOutcome, SpecCheckErr>
    decreases depth, spec_uheight(rw) + 1, 2int,
{
    match rw {
        Userset::This => match spec_get_relation(c.ts, key.object_type@, key.relation@) {
            Err(e) => Err(spec_model_err_to_check_err(e)),
            Ok(entry) => {
                let refs = entry.metadata.directly_related_user_types@;
                if refs.len() == 0 {
                    Err(
                        SpecCheckErr::NotFoundThisTypes {
                            object_type: key.object_type@,
                            relation: key.relation@,
                        },
                    )
                } else {
                    let listed = spec_listed_direct(c, key, refs);
                    if spec_direct_grant(key, listed) {
                        Ok(SpecOutcome { allow: true, queries: 1 })
                    } else {
                        match spec_eval_union_keys(
                            c,
                            spec_userset_subkeys(key, listed),
                            depth,
                            visited,
                        ) {
                            Err(e) => Err(e),
                            Ok(o) => Ok(SpecOutcome { allow: o.allow, queries: o.queries + 1 }),
                        }
                    }
                }
            },
        },
        Userset::Computed(or) => spec_descend(
            c,
            TupleKey {
                user_type: key.user_type,
                user_id: key.user_id,
                user_relation: key.user_relation,
                relation: or.relation,
                object_type: key.object_type,
                object_id: key.object_id,
            },
            depth,
            visited,
        ),
        Userset::TupleTo(ttu) => {
            let listed = spec_listed_ttu(c, key, ttu.tupleset.relation@);
            match spec_eval_union_keys(
                c,
                spec_ttu_subkeys(key, ttu.computed_userset.relation, listed),
                depth,
                visited,
            ) {
                Err(e) => Err(e),
                Ok(o) => Ok(SpecOutcome { allow: o.allow, queries: o.queries + 1 }),
            }
        },
        Userset::Union { children } => spec_eval_union_list(c, key, children@, depth, visited),
        Userset::Intersection { children } => spec_eval_intersection_list(
            c,
            key,
            children@,
            depth,
            visited,
        ),
        Userset::Difference { base, subtract } => spec_eval_exclusion(
            c,
            key,
            *base,
            *subtract,
            depth,
            visited,
        ),
    }
}

/// The difference `base \ subtract`: a deny of `base` is decisive; otherwise
/// the check allows exactly when `subtract` denies.  Query counts add.
pub open spec fn spec_eval_exclusion(
    c: EvalCtx,
    key: TupleKey,
    base: Userset,
    subtract: Userset,
    depth: nat,
    visited: Set<Seq<char>>,
) -> Result<SpecOutcome, SpecCheckErr>
    decreases depth, spec_max_height(base, subtract) + 1, 3int,
{
    match spec_eval_rewrite(c, key, base, depth, visited) {
        Err(e) => Err(e),
        Ok(b) => {
            if !b.allow {
                Ok(SpecOutcome { allow: false, queries: b.queries })
            } else {
                match spec_eval_rewrite(c, key, subtract, depth, visited) {
                    Err(e) => Err(e),
                    Ok(s) => Ok(SpecOutcome { allow: !s.allow, queries: b.queries + s.queries }),
                }
            }
        },
    }
}

/// The larger of two rewrite heights.
pub open spec fn spec_max_height(a: Userset, b: Userset) -> nat {
    if spec_uheight(a) >= spec_uheight(b) {
        spec_uheight(a)
    } else {
        spec_uheight(b)
    }
}

/// One recursive descent into a sub-check of `key`: spend one depth unit,
/// stop on a fingerprint already on the path, then evaluate the relation's
/// rewrite with the fingerprint added to the path.
pub open spec fn spec_descend(
    c: EvalCtx,
    key: TupleKey,
    depth: nat,
    visited: Set<Seq<char>>,
) -> Result<SpecOutcome, SpecCheckErr>
    decreases depth, 0nat, 0int,
{
    if depth == 0 {
        Err(SpecCheckErr::DepthExceeded)
    } else {
        let fp = spec_path_fingerprint(key);
        if visited.contains(fp) {
            Ok(SpecOutcome { allow: false, queries: 0 })
        } else {
            match spec_get_relation(c.ts, key.object_type@, key.relation@) {
                Err(e) => Err(spec_model_err_to_check_err(e)),
                Ok(entry) => spec_eval_rewrite(
                    c,
                    key,
                    entry.rewrite,
                    (depth - 1) as nat,
                    visited.insert(fp),
                ),
            }
        }
    }
}

/// A union over sub-check keys, left to right with early exit on allow and
/// on the first error; all children denying is a deny.  Query counts of the
/// evaluated children add up.
pub open spec fn spec_eval_union_keys(
    c: EvalCtx,
    keys: Seq<TupleKey>,
    depth: nat,
    visited: Set<Seq<char>>,
) -> Result<SpecOutcome, SpecCheckErr>
    decreases depth, 0nat, keys.len() as int,
{
    if keys.len() == 0 {
        Ok(SpecOutcome { allow: false, queries: 0 })
    } else {
        match spec_descend(c, keys[0], depth, visited) {
            Err(e) => Err(e),
            Ok(o) => {
                if o.allow {
                    Ok(o)
                } else {
                    match spec_eval_union_keys(c, keys.drop_first(), depth, visited) {
                        Err(e) => Err(e),
                        Ok(r) => Ok(SpecOutcome { allow: r.allow, queries: o.queries + r.queries }),
                    }
                }
            },
        }
    }
}

/// A union over child rewrites, left to right with early exit.
pub open spec fn spec_eval_union_list(
    c: EvalCtx,
    key: TupleKey,
    children: Seq<Userset>,
    depth: nat,
    visited: Set<Seq<char>>,
) -> Result<SpecOutcome, SpecCheckErr>
    decreases depth, spec_useq_height(children) + 1, children.len() as int,
    via spec_eval_union_list_decreases
{
    if children.len() == 0 {
        Ok(SpecOutcome { allow: false, queries: 0 })
    } else {
        match spec_eval_rewrite(c, key, children[0], depth, visited) {
            Err(e) => Err(e),
            Ok(o) => {
                if o.allow {
                    Ok(o)
                } else {
                    match spec_eval_union_list(c, key, children.drop_first(), depth, visited) {
                        Err(e) => Err(e),
                        Ok(r) => Ok(SpecOutcome { allow: r.allow, queries: o.queries + r.queries }),
                    }
                }
            },
        }
    }
}

#[via_fn]
proof fn spec_eval_union_list_decreases(
    c: EvalCtx,
    key: TupleKey,
    children: Seq<Userset>,
    depth: nat,
    visited: Set<Seq<char>>,
) {
    if children.len() > 0 {
        lemma_useq_height_bound(children, 0);
        lemma_useq_height_drop(children);
    }
}

/// An intersection over child rewrites, left to right with early exit on
/// deny; all children allowing is an allow.
pub open spec fn spec_eval_intersection_list(
    c: EvalCtx,
    key: TupleKey,
    children: Seq<Userset>,
    depth: nat,
    visited: Set<Seq<char>>,
) -> Result<SpecOutcome, SpecCheckErr>
    decreases depth, spec_useq_height(children) + 1, children.len() as int,
    via spec_eval_intersection_list_decreases
{
    if children.len() == 0 {
        Ok(SpecOutcome { allow: true, queries: 0 })
    } else {
        match spec_eval_rewrite(c, key, children[0], depth, visited) {
            Err(e) => Err(e),
            Ok(o) => {
                if !o.allow {
                    Ok(o)
                } else {
                    match spec_eval_intersection_list(
                        c,
                        key,
                        children.drop_first(),
                        depth,
                        visited,
                    ) {
                        Err(e) => Err(e),
                        Ok(r) => Ok(SpecOutcome { allow: r.allow, queries: o.queries + r.queries }),
                    }
                }
            },
        }
    }
}

#[via_fn]
proof fn spec_eval_intersection_list_decreases(
    c: EvalCtx,
    key: TupleKey,
    children: Seq<Userset>,
    depth: nat,
    visited: Set<Seq<char>>,
) {
    if children.len() > 0 {
        lemma_useq_height_bound(children, 0);
        lemma_useq_height_drop(children);
    }
}

/// Does the executable result `r` report exactly the specified outcome `s`?
/// The decision and the error must agree exactly; the query count is `s`'s,
/// clipped to `u32`.
pub open spec fn spec_matches_result(
    s: Result<SpecOutcome, SpecCheckErr>,
    r: Result<CheckResult, CheckerError>,
) -> bool {
    match r {
        Ok(res) => s matches Ok(o) && o.allow == res.allow
            && res.resolution_metadata.datastore_query_count as nat == spec_sat32(o.queries),
        Err(e) => s == Err::<SpecOutcome, SpecCheckErr>(e@),
    }
}

/// The set of fingerprints a request's `visited_paths` stands for.
pub open spec fn spec_visited_set(v: Seq<String>) -> Set<Seq<char>> {
    Set::new(|x: Seq<char>| exists|i: int| 0 <= i < v.len() && v[i]@ == x)
}

/// The contextual tuples of a request, read as stored tuples.
pub open spec fn spec_ctx_tuples(keys: Seq<TupleKey>) -> Seq<Tuple> {
    Seq::new(keys.len(), |i: int| crate::tuple::spec_key_as_tuple(keys[i]))
}

/// A whole check of `key`: stop at once on a fingerprint already on the
/// path, look the relation up, then walk its rewrite.  The top level spends
/// no depth unit; each descent below it spends one.
pub open spec fn spec_check(
    c: EvalCtx,
    key: TupleKey,
    depth: nat,
    visited: Set<Seq<char>>,
) -> Result<SpecOutcome, SpecCheckErr> {
    let fp = spec_path_fingerprint(key);
    if visited.contains(fp) {
        Ok(SpecOutcome { allow: false, queries: 0 })
    } else {
        match spec_get_relation(c.ts, key.object_type@, key.relation@) {
            Err(e) => Err(spec_model_err_to_check_err(e)),
            Ok(entry) => spec_eval_rewrite(c, key, entry.rewrite, depth, visited.insert(fp)),
        }
    }
}

} // verus!
