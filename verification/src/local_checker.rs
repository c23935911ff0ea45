use vstd::prelude::*;
use vstd::string::StringExecFns;

use crate::checker::CheckRequest;
use crate::checker::CheckResult;
use crate::checker::CheckerError;
use crate::checker::EvalCtx;
use crate::checker::spec_check;
use crate::checker::spec_ctx_tuples;
use crate::checker::spec_descend;
use crate::checker::spec_direct_grant;
use crate::checker::spec_direct_tuple_match;
use crate::checker::spec_eval_exclusion;
use crate::checker::spec_eval_intersection_list;
use crate::checker::spec_eval_rewrite;
use crate::checker::spec_eval_union_keys;
use crate::checker::spec_eval_union_list;
use crate::checker::spec_listed_direct;
use crate::checker::spec_listed_ttu;
use crate::checker::spec_matches_result;
use crate::checker::spec_max_height;
use crate::checker::spec_model_err_to_check_err;
use crate::checker::spec_sat32;
use crate::checker::spec_select_direct;
use crate::checker::spec_select_direct_ctx;
use crate::checker::spec_select_ttu;
use crate::checker::spec_select_ttu_ctx;
use crate::checker::spec_subject_ref_match;
use crate::checker::spec_subject_refs_match;
use crate::checker::spec_ttu_subkeys;
use crate::checker::spec_ttu_tuple_match;
use crate::checker::spec_uheight;
use crate::checker::spec_useq_height;
use crate::checker::spec_userset_subkeys;
use crate::checker::spec_visited_set;
use crate::checker::lemma_useq_height_bound;
use crate::checker::lemma_useq_height_drop;
use crate::model::ModelError;
use crate::model::ObjectRelation;
use crate::model::RelationReference;
use crate::model::TupleToUserset;
use crate::model::Typesystem;
use crate::model::Userset;
use crate::storage::MemoryTupleStore;
use crate::storage::StoredTuple;
use crate::storage::TupleFilter;
use crate::storage::spec_any_filter_matches;
use crate::storage::spec_filter_matches;
use crate::storage::spec_select;
use crate::storage::spec_select_tuples;
use crate::tuple::Tuple;
use crate::tuple::TupleKey;

verus! {

/// The read-only surroundings of the executable resolver, as one
/// specification value.
pub open spec fn spec_ctx_of(
    store: MemoryTupleStore,
    ts: Typesystem,
    tenant: Seq<char>,
    ctx: Seq<Tuple>,
) -> EvalCtx {
    EvalCtx { ts, rows: store.rows@, tenant, ctx }
}

/// The key a computed-userset rewrite redirects to: the same object and
/// subject, with the relation replaced.
pub open spec fn spec_computed_key(key: TupleKey, or: ObjectRelation) -> TupleKey {
    TupleKey {
        user_type: key.user_type,
        user_id: key.user_id,
        user_relation: key.user_relation,
        relation: or.relation,
        object_type: key.object_type,
        object_id: key.object_id,
    }
}

/// Add two reported query counts without overflow; the result is the true
/// sum, clipped to `u32`.
fn sat_add(x: u32, y: u32) -> (r: u32)
    ensures
        r as nat == spec_sat32(x as nat + y as nat),
{
    x.saturating_add(y)
}

/// Clipping distributes over addition of query counts.
proof fn lemma_sat32_add(a: nat, b: nat)
    ensures
        spec_sat32(spec_sat32(a) + spec_sat32(b)) == spec_sat32(a + b),
{
}

/// Turn a failed model lookup into the resolver's error for it.
fn model_err_to_checker(e: ModelError) -> (r: CheckerError)
    ensures
        r@ == spec_model_err_to_check_err(e@),
{
    match e {
        ModelError::NotFoundRelations(object_type) => CheckerError::NotFoundRelations {
            object_type,
        },
        ModelError::NotFoundRelation(relation) => CheckerError::NotFoundRelation { relation },
    }
}

/// Appending a fingerprint to the path extends the fingerprint set by it.
proof fn lemma_visited_push(v: Seq<String>, s: String)
    ensures
        spec_visited_set(v.push(s)) == spec_visited_set(v).insert(s@),
{
    assert forall|x: Seq<char>| #[trigger]
        spec_visited_set(v.push(s)).contains(x)
            == spec_visited_set(v).insert(s@).contains(x) by {
        let vp = v.push(s);
        if spec_visited_set(vp).contains(x) {
            let i = choose|i: int| 0 <= i < vp.len() && vp[i]@ == x;
            if i < v.len() {
                assert(v[i]@ == x);
            } else {
                assert(x == s@);
            }
        }
        if spec_visited_set(v).contains(x) {
            let i = choose|i: int| 0 <= i < v.len() && v[i]@ == x;
            assert(vp[i]@ == x);
        }
        if x == s@ {
            assert(vp[v.len() as int]@ == x);
        }
    }
    assert(spec_visited_set(v.push(s)) =~= spec_visited_set(v).insert(s@));
}

/// Is the fingerprint `fp` already on the visited path?
fn contains_fp(v: &Vec<String>, fp: &String) -> (r: bool)
    ensures
        r == spec_visited_set(v@).contains(fp@),
{
    let n = v.len();
    let mut i: usize = 0;
    while i < n
        invariant
            n == v@.len(),
            i <= n,
            forall|j: int| 0 <= j < i ==> v@[j]@ != fp@,
        decreases n - i,
    {
        if v[i] == *fp {
            assert(spec_visited_set(v@).contains(fp@));
            return true;
        }
        i += 1;
    }
    assert(!spec_visited_set(v@).contains(fp@));
    false
}

/// A copy of the visited path with one more fingerprint on it.
fn clone_push(v: &Vec<String>, s: &String) -> (r: Vec<String>)
    ensures
        r@ == v@.push(*s),
{
    let n = v.len();
    let mut out: Vec<String> = Vec::new();
    let mut i: usize = 0;
    while i < n
        invariant
            n == v@.len(),
            i <= n,
            out@ == v@.take(i as int),
        decreases n - i,
    {
        out.push(v[i].clone());
        proof {
            assert(v@.take(i + 1) =~= v@.take(i as int).push(v@[i as int]));
        }
        i += 1;
    }
    out.push(s.clone());
    proof {
        assert(v@.take(n as int) =~= v@);
    }
    out
}

/// The contextual keys of a request, as the tuples they stand for.
fn build_ctx_tuples(keys: &Vec<TupleKey>) -> (r: Vec<Tuple>)
    ensures
        r@ == spec_ctx_tuples(keys@),
{
    let n = keys.len();
    let mut out: Vec<Tuple> = Vec::new();
    let mut i: usize = 0;
    while i < n
        invariant
            n == keys@.len(),
            i <= n,
            out@.len() == i,
            forall|j: int| 0 <= j < i ==> out@[j] == crate::tuple::spec_key_as_tuple(keys@[j]),
        decreases n - i,
    {
        out.push(keys[i].as_tuple());
        i += 1;
    }
    proof {
        assert(out@ =~= spec_ctx_tuples(keys@));
    }
    out
}

/// One datastore list call: the persisted tuples of the tenant matching the
/// filter, followed by the matching contextual tuples.
fn list_with_context(
    store: &MemoryTupleStore,
    tenant: &String,
    filter: &TupleFilter,
    ctx: &Vec<Tuple>,
) -> (r: Vec<Tuple>)
    ensures
        r@ == spec_select(store.rows@, tenant@, *filter) + spec_select_tuples(ctx@, *filter),
{
    let mut out = store.list(tenant, filter);
    let ghost base = out@;
    let n = ctx.len();
    let mut i: usize = 0;
    proof {
        assert(ctx@.skip(0) =~= ctx@);
        assert(base + spec_select_tuples(ctx@, *filter) == spec_select(
            store.rows@,
            tenant@,
            *filter,
        ) + spec_select_tuples(ctx@, *filter));
    }
    while i < n
        invariant
            n == ctx@.len(),
            i <= n,
            out@ + spec_select_tuples(ctx@.skip(i as int), *filter) == base + spec_select_tuples(
                ctx@,
                *filter,
            ),
        decreases n - i,
    {
        proof {
            assert(ctx@.skip(i as int)[0] == ctx@[i as int]);
            assert(ctx@.skip(i as int).drop_first() =~= ctx@.skip(i + 1));
        }
        if filter.matches(&ctx[i]) {
            out.push(ctx[i].clone());
            proof {
                assert(out@ + spec_select_tuples(ctx@.skip(i + 1), *filter) =~= out@.drop_last()
                    + spec_select_tuples(ctx@.skip(i as int), *filter));
            }
        }
        i += 1;
    }
    proof {
        assert(ctx@.skip(n as int) =~= Seq::<Tuple>::empty());
        assert(out@ =~= out@ + spec_select_tuples(ctx@.skip(n as int), *filter));
    }
    out
}

/// A filter that matches as the direct predicate does selects the same rows.
proof fn lemma_select_direct_eq(
    rows: Seq<StoredTuple>,
    tenant: Seq<char>,
    key: TupleKey,
    refs: Seq<RelationReference>,
    f: TupleFilter,
)
    requires
        forall|t: Tuple| #[trigger] spec_filter_matches(f, t) == spec_direct_tuple_match(
            key,
            refs,
            t,
        ),
    ensures
        spec_select(rows, tenant, f) == spec_select_direct(rows, tenant, key, refs),
    decreases rows.len(),
{
    if rows.len() > 0 {
        lemma_select_direct_eq(rows.drop_first(), tenant, key, refs, f);
    }
}

/// The same, over the contextual tuples.
proof fn lemma_select_direct_ctx_eq(
    ctx: Seq<Tuple>,
    key: TupleKey,
    refs: Seq<RelationReference>,
    f: TupleFilter,
)
    requires
        forall|t: Tuple| #[trigger] spec_filter_matches(f, t) == spec_direct_tuple_match(
            key,
            refs,
            t,
        ),
    ensures
        spec_select_tuples(ctx, f) == spec_select_direct_ctx(ctx, key, refs),
    decreases ctx.len(),
{
    if ctx.len() > 0 {
        lemma_select_direct_ctx_eq(ctx.drop_first(), key, refs, f);
    }
}

/// A filter that matches as the tupleset predicate does selects the same rows.
proof fn lemma_select_ttu_eq(
    rows: Seq<StoredTuple>,
    tenant: Seq<char>,
    key: TupleKey,
    tsrel: Seq<char>,
    f: TupleFilter,
)
    requires
        forall|t: Tuple| #[trigger] spec_filter_matches(f, t) == spec_ttu_tuple_match(
            key,
            tsrel,
            t,
        ),
    ensures
        spec_select(rows, tenant, f) == spec_select_ttu(rows, tenant, key, tsrel),
    decreases rows.len(),
{
    if rows.len() > 0 {
        lemma_select_ttu_eq(rows.drop_first(), tenant, key, tsrel, f);
    }
}

/// The same, over the contextual tuples.
proof fn lemma_select_ttu_ctx_eq(ctx: Seq<Tuple>, key: TupleKey, tsrel: Seq<char>, f: TupleFilter)
    requires
        forall|t: Tuple| #[trigger] spec_filter_matches(f, t) == spec_ttu_tuple_match(
            key,
            tsrel,
            t,
        ),
    ensures
        spec_select_tuples(ctx, f) == spec_select_ttu_ctx(ctx, key, tsrel),
    decreases ctx.len(),
{
    if ctx.len() > 0 {
        lemma_select_ttu_ctx_eq(ctx.drop_first(), key, tsrel, f);
    }
}

/// Appending a sub-filter to a disjunction adds exactly its matches.
proof fn lemma_any_filter_push(s: Seq<TupleFilter>, x: TupleFilter, t: Tuple)
    ensures
        spec_any_filter_matches(s.push(x), t) == (spec_any_filter_matches(s, t)
            || spec_filter_matches(x, t)),
    decreases s.len(),
{
    if s.len() == 0 {
        assert(s.push(x)[0] == x);
        assert(s.push(x).drop_first() =~= Seq::<TupleFilter>::empty());
        assert(!spec_any_filter_matches(Seq::<TupleFilter>::empty(), t));
        assert(spec_any_filter_matches(s.push(x), t) == spec_filter_matches(x, t));
    } else {
        assert(s.push(x)[0] == s[0]);
        assert(s.push(x).drop_first() =~= s.drop_first().push(x));
        lemma_any_filter_push(s.drop_first(), x, t);
        assert(spec_any_filter_matches(s.push(x), t) == (spec_filter_matches(s[0], t)
            || spec_any_filter_matches(s.drop_first().push(x), t)));
    }
}

/// Build the one filter a direct check runs: the object scope of `key` and a
/// disjunction with one sub-filter per declared reference that the request's
/// subject could match.
fn build_direct_filter(key: &TupleKey, refs: &Vec<RelationReference>) -> (f: TupleFilter)
    ensures
        forall|t: Tuple| #[trigger] spec_filter_matches(f, t) == spec_direct_tuple_match(
            *key,
            refs@,
            t,
        ),
{
    let n = refs.len();
    let mut ors: Vec<TupleFilter> = Vec::new();
    let mut i: usize = 0;
    while i < n
        invariant
            n == refs@.len(),
            i <= n,
            forall|t: Tuple| #[trigger] spec_any_filter_matches(ors@, t) == (exists|j: int|
                0 <= j < i && spec_subject_ref_match(refs@[j], *key, t)),
        decreases n - i,
    {
        let ghost old_ors = ors@;
        let mut added = false;
        match &refs[i] {
            RelationReference::Direct(typ) => {
                if *typ == key.user_type {
                    let mut sf = TupleFilter::empty();
                    sf.user_type_eq = Some(typ.clone());
                    sf.user_id_eq = Some(key.user_id.clone());
                    ors.push(sf);
                    added = true;
                    assert(forall|t: Tuple|
                        spec_filter_matches(ors@.last(), t) == spec_subject_ref_match(
                            refs@[i as int],
                            *key,
                            t,
                        ));
                }
            },
            RelationReference::Relation { typ, relation } => {
                let wanted = if *typ == key.user_type {
                    *relation == key.user_relation
                } else {
                    true
                };
                if wanted {
                    let mut sf = TupleFilter::empty();
                    sf.user_type_eq = Some(typ.clone());
                    sf.user_relation_eq = Some(relation.clone());
                    ors.push(sf);
                    added = true;
                    assert(forall|t: Tuple|
                        spec_filter_matches(ors@.last(), t) == spec_subject_ref_match(
                            refs@[i as int],
                            *key,
                            t,
                        ));
                }
            },
            RelationReference::Wildcard(typ) => {
                if *typ == key.user_type {
                    let mut ids: Vec<String> = Vec::new();
                    ids.push(key.user_id.clone());
                    ids.push(String::from_str("*"));
                    let mut sf = TupleFilter::empty();
                    sf.user_type_eq = Some(typ.clone());
                    sf.user_id_in = Some(ids);
                    ors.push(sf);
                    added = true;
                    assert forall|t: Tuple|
                        spec_filter_matches(ors@.last(), t) == spec_subject_ref_match(
                            refs@[i as int],
                            *key,
                            t,
                        ) by {
                        let sfv = ors@.last();
                        assert(sfv.user_id_in->0@[0]@ == key.user_id@);
                        assert(sfv.user_id_in->0@[1]@ == "*"@);
                        if spec_filter_matches(sfv, t) {
                            let ix = choose|ix: int|
                                0 <= ix < sfv.user_id_in->0@.len() && sfv.user_id_in->0@[ix]@
                                    == t.user_id@;
                            assert(ix == 0 || ix == 1);
                        }
                    }
                }
            },
        }
        proof {
            if added {
                assert(ors@ == old_ors.push(ors@.last()));
                assert forall|t: Tuple| #[trigger] spec_any_filter_matches(ors@, t) == (exists|
                    j: int,
                |
                    0 <= j < i + 1 && spec_subject_ref_match(refs@[j], *key, t)) by {
                    lemma_any_filter_push(old_ors, ors@.last(), t);
                    if spec_subject_ref_match(refs@[i as int], *key, t) {
                        assert(spec_any_filter_matches(ors@, t));
                    }
                    if spec_any_filter_matches(ors@, t) {
                        if !spec_filter_matches(ors@.last(), t) {
                            let j = choose|j: int|
                                0 <= j < i && spec_subject_ref_match(refs@[j], *key, t);
                            assert(0 <= j < i + 1 && spec_subject_ref_match(refs@[j], *key, t));
                        }
                    }
                }
            } else {
                assert forall|t: Tuple| #[trigger] spec_any_filter_matches(ors@, t) == (exists|
                    j: int,
                |
                    0 <= j < i + 1 && spec_subject_ref_match(refs@[j], *key, t)) by {
                    assert(!spec_subject_ref_match(refs@[i as int], *key, t));
                    if spec_any_filter_matches(ors@, t) {
                        let j = choose|j: int|
                            0 <= j < i && spec_subject_ref_match(refs@[j], *key, t);
                        assert(0 <= j < i + 1 && spec_subject_ref_match(refs@[j], *key, t));
                    }
                    if exists|j: int| 0 <= j < i + 1 && spec_subject_ref_match(refs@[j], *key, t) {
                        let j = choose|j: int|
                            0 <= j < i + 1 && spec_subject_ref_match(refs@[j], *key, t);
                        assert(j < i);
                        assert(spec_any_filter_matches(ors@, t));
                    }
                }
            }
        }
        i += 1;
    }
    let mut f = TupleFilter::empty();
    f.object_type_eq = Some(key.object_type.clone());
    f.object_id_eq = Some(key.object_id.clone());
    f.relation_eq = Some(key.relation.clone());
    f.or = Some(ors);
    assert forall|t: Tuple| #[trigger] spec_filter_matches(f, t) == spec_direct_tuple_match(
        *key,
        refs@,
        t,
    ) by {
        assert(spec_any_filter_matches(f.or->0@, t) == spec_subject_refs_match(refs@, *key, t));
    }
    f
}

/// Build the filter a tuple-to-userset check runs: the object of `key` and
/// the tupleset relation.
fn build_ttu_filter(key: &TupleKey, tsrel: &String) -> (f: TupleFilter)
    ensures
        forall|t: Tuple| #[trigger] spec_filter_matches(f, t) == spec_ttu_tuple_match(
            *key,
            tsrel@,
            t,
        ),
{
    let mut f = TupleFilter::empty();
    f.object_type_eq = Some(key.object_type.clone());
    f.object_id_eq = Some(key.object_id.clone());
    f.relation_eq = Some(tsrel.clone());
    f
}

/// The sub-check keys for the userset references among `listed`.
fn build_userset_subkeys(key: &TupleKey, listed: &Vec<Tuple>) -> (r: Vec<TupleKey>)
    ensures
        r@ == spec_userset_subkeys(*key, listed@),
{
    let n = listed.len();
    let mut out: Vec<TupleKey> = Vec::new();
    let mut i: usize = 0;
    proof {
        assert(listed@.skip(0) =~= listed@);
    }
    while i < n
        invariant
            n == listed@.len(),
            i <= n,
            out@ + spec_userset_subkeys(*key, listed@.skip(i as int)) == spec_userset_subkeys(
                *key,
                listed@,
            ),
        decreases n - i,
    {
        proof {
            assert(listed@.skip(i as int)[0] == listed@[i as int]);
            assert(listed@.skip(i as int).drop_first() =~= listed@.skip(i + 1));
        }
        match &listed[i].user_relation {
            Some(ur) => {
                out.push(
                    TupleKey {
                        user_type: key.user_type.clone(),
                        user_id: key.user_id.clone(),
                        user_relation: key.user_relation.clone(),
                        relation: ur.clone(),
                        object_type: listed[i].user_type.clone(),
                        object_id: listed[i].user_id.clone(),
                    },
                );
                proof {
                    assert(out@ + spec_userset_subkeys(*key, listed@.skip(i + 1))
                        =~= out@.drop_last() + spec_userset_subkeys(
                        *key,
                        listed@.skip(i as int),
                    ));
                }
            },
            None => {},
        }
        i += 1;
    }
    proof {
        assert(listed@.skip(n as int) =~= Seq::<Tuple>::empty());
        assert(out@ =~= out@ + spec_userset_subkeys(*key, listed@.skip(n as int)));
    }
    out
}

/// The sub-check keys of a tuple-to-userset rewrite over `listed`.
fn build_ttu_subkeys(key: &TupleKey, computed: &String, listed: &Vec<Tuple>) -> (r: Vec<TupleKey>)
    ensures
        r@ == spec_ttu_subkeys(*key, *computed, listed@),
{
    let n = listed.len();
    let mut out: Vec<TupleKey> = Vec::new();
    let mut i: usize = 0;
    proof {
        assert(listed@.skip(0) =~= listed@);
    }
    while i < n
        invariant
            n == listed@.len(),
            i <= n,
            out@ + spec_ttu_subkeys(*key, *computed, listed@.skip(i as int)) == spec_ttu_subkeys(
                *key,
                *computed,
                listed@,
            ),
        decreases n - i,
    {
        proof {
            assert(listed@.skip(i as int)[0] == listed@[i as int]);
            assert(listed@.skip(i as int).drop_first() =~= listed@.skip(i + 1));
        }
        match &listed[i].user_relation {
            Some(_) => {},
            None => {
                out.push(
                    TupleKey {
                        user_type: key.user_type.clone(),
                        user_id: key.user_id.clone(),
                        user_relation: key.user_relation.clone(),
                        relation: computed.clone(),
                        object_type: listed[i].user_type.clone(),
                        object_id: listed[i].user_id.clone(),
                    },
                );
                proof {
                    assert(out@ + spec_ttu_subkeys(*key, *computed, listed@.skip(i + 1))
                        =~= out@.drop_last() + spec_ttu_subkeys(
                        *key,
                        *computed,
                        listed@.skip(i as int),
                    ));
                }
            },
        }
        i += 1;
    }
    proof {
        assert(listed@.skip(n as int) =~= Seq::<Tuple>::empty());
        assert(out@ =~= out@ + spec_ttu_subkeys(*key, *computed, listed@.skip(n as int)));
    }
    out
}

/// Does some listed tuple decide the check directly in the subject's favour?
fn direct_grant(key: &TupleKey, listed: &Vec<Tuple>) -> (r: bool)
    ensures
        r == spec_direct_grant(*key, listed@),
{
    if !key.user_relation.as_str().is_empty() {
        return false;
    }
    let star = String::from_str("*");
    let n = listed.len();
    let mut i: usize = 0;
    while i < n
        invariant
            n == listed@.len(),
            i <= n,
            star@ == "*"@,
            key.user_relation@.len() == 0,
            forall|j: int|
                0 <= j < i ==> !((#[trigger] listed@[j]).user_relation is None
                    && listed@[j].user_type@ == key.user_type@ && (listed@[j].user_id@
                    == key.user_id@ || listed@[j].user_id@ == crate::tuple::spec_wildcard())),
        decreases n - i,
    {
        let t = &listed[i];
        if t.user_relation.is_none() && t.user_type == key.user_type && (t.user_id == key.user_id
            || t.user_id == star) {
            proof {
                assert((listed@[i as int]).user_relation is None && listed@[i as int].user_type@
                    == key.user_type@ && (listed@[i as int].user_id@ == key.user_id@
                    || listed@[i as int].user_id@ == crate::tuple::spec_wildcard()));
                assert(spec_direct_grant(*key, listed@));
            }
            return true;
        }
        i += 1;
    }
    false
}

/// The local resolver: walks rewrite trees against an in-memory tuple store.
pub struct LocalChecker {
    pub tuple_reader: MemoryTupleStore,
}

/// The surroundings of a request handled by `checker`.
pub open spec fn spec_req_ctx(checker: LocalChecker, req: CheckRequest) -> EvalCtx {
    EvalCtx {
        ts: req.typesystem,
        rows: checker.tuple_reader.rows@,
        tenant: req.tenant_id@,
        ctx: spec_ctx_tuples(req.contextual_tuples@),
    }
}

impl LocalChecker {
    /// A resolver over the given store.
    pub fn new(tuple_reader: MemoryTupleStore) -> (r: Self)
        ensures
            r.tuple_reader == tuple_reader,
    {
        LocalChecker { tuple_reader }
    }

    /// Decide one check request.  The result reports exactly the decision
    /// and query count of the specification-level evaluation of the request
    /// against this store; an error reports exactly its failure.
    pub fn check(&self, req: &CheckRequest) -> (r: Result<CheckResult, CheckerError>)
        ensures
            spec_matches_result(
                spec_check(
                    spec_req_ctx(*self, *req),
                    req.tuple_key,
                    req.resolution_metadata.depth as nat,
                    spec_visited_set(req.visited_paths@),
                ),
                r,
            ),
    {
        let ctx_tuples = build_ctx_tuples(&req.contextual_tuples);
        let fp = req.tuple_key.path_fingerprint();
        if contains_fp(&req.visited_paths, &fp) {
            return Ok(CheckResult::new_dqc(false, 0));
        }
        match req.typesystem.get_relation(&req.tuple_key.object_type, &req.tuple_key.relation) {
            Err(e) => Err(model_err_to_checker(e)),
            Ok(entry) => {
                let visited2 = clone_push(&req.visited_paths, &fp);
                proof {
                    lemma_visited_push(req.visited_paths@, fp);
                }
                check_rewrite(
                    &self.tuple_reader,
                    &req.typesystem,
                    &req.tenant_id,
                    &ctx_tuples,
                    &req.tuple_key,
                    &entry.rewrite,
                    req.resolution_metadata.depth,
                    &visited2,
                )
            },
        }
    }

    /// Release per-request resources; the local resolver holds none.
    pub fn close(&self) {
    }

    /// The resolver's name.
    pub fn name(&self) -> (r: &'static str)
        ensures
            r@ == "local"@,
    {
        "local"
    }
}

/// Evaluate one rewrite node of the relation under check.
fn check_rewrite(
    store: &MemoryTupleStore,
    ts: &Typesystem,
    tenant: &String,
    ctx: &Vec<Tuple>,
    key: &TupleKey,
    rw: &Userset,
    depth: u32,
    visited: &Vec<String>,
) -> (r: Result<CheckResult, CheckerError>)
    ensures
        spec_matches_result(
            spec_eval_rewrite(
                spec_ctx_of(*store, *ts, tenant@, ctx@),
                *key,
                *rw,
                depth as nat,
                spec_visited_set(visited@),
            ),
            r,
        ),
    decreases depth, spec_uheight(*rw) + 1, 2int,
{
    match rw {
        Userset::This => check_direct(store, ts, tenant, ctx, key, depth, visited),
        Userset::Computed(or) => check_computed(store, ts, tenant, ctx, key, or, depth, visited),
        Userset::TupleTo(ttu) => check_tuple_to(store, ts, tenant, ctx, key, ttu, depth, visited),
        Userset::Union { children } => {
            proof {
                assert(children@.skip(0) =~= children@);
            }
            union_check(store, ts, tenant, ctx, key, children, 0, depth, visited)
        },
        Userset::Intersection { children } => {
            proof {
                assert(children@.skip(0) =~= children@);
            }
            intersection_check(store, ts, tenant, ctx, key, children, 0, depth, visited)
        },
        Userset::Difference { base, subtract } => exclusion_check(
            store,
            ts,
            tenant,
            ctx,
            key,
            base,
            subtract,
            depth,
            visited,
        ),
    }
}

/// A direct (`This`) check: one list call scoped to the key's object and the
/// declared subject shapes; a matching plain tuple decides at once, and the
/// userset references among the results are checked as a union.
fn check_direct(
    store: &MemoryTupleStore,
    ts: &Typesystem,
    tenant: &String,
    ctx: &Vec<Tuple>,
    key: &TupleKey,
    depth: u32,
    visited: &Vec<String>,
) -> (r: Result<CheckResult, CheckerError>)
    ensures
        spec_matches_result(
            spec_eval_rewrite(
                spec_ctx_of(*store, *ts, tenant@, ctx@),
                *key,
                Userset::This,
                depth as nat,
                spec_visited_set(visited@),
            ),
            r,
        ),
    decreases depth, 1nat, 1int,
{
    let ghost c = spec_ctx_of(*store, *ts, tenant@, ctx@);
    let refs = match ts.get_directly_related_types(&key.object_type, &key.relation) {
        Ok(refs) => refs,
        Err(e) => {
            return Err(model_err_to_checker(e));
        },
    };
    if refs.len() == 0 {
        return Err(
            CheckerError::NotFoundThisTypes {
                object_type: key.object_type.clone(),
                relation: key.relation.clone(),
            },
        );
    }
    let f = build_direct_filter(key, refs);
    let listed = list_with_context(store, tenant, &f, ctx);
    proof {
        lemma_select_direct_eq(store.rows@, tenant@, *key, refs@, f);
        lemma_select_direct_ctx_eq(ctx@, *key, refs@, f);
        assert(listed@ == spec_listed_direct(c, *key, refs@));
    }
    if direct_grant(key, &listed) {
        return Ok(CheckResult::new_dqc(true, 1));
    }
    let subkeys = build_userset_subkeys(key, &listed);
    proof {
        assert(subkeys@.skip(0) =~= subkeys@);
    }
    match union_keys_check(store, ts, tenant, ctx, &subkeys, 0, depth, visited) {
        Err(e) => Err(e),
        Ok(sub) => {
            let ghost o = spec_eval_union_keys(
                c,
                subkeys@,
                depth as nat,
                spec_visited_set(visited@),
            )->Ok_0;
            proof {
                lemma_sat32_add(o.queries, 1);
            }
            Ok(
                CheckResult::new_dqc(
                    sub.allow,
                    sat_add(sub.resolution_metadata.datastore_query_count, 1),
                ),
            )
        },
    }
}

/// A computed-userset check: recurse on the same object under the named
/// relation.
fn check_computed(
    store: &MemoryTupleStore,
    ts: &Typesystem,
    tenant: &String,
    ctx: &Vec<Tuple>,
    key: &TupleKey,
    or: &ObjectRelation,
    depth: u32,
    visited: &Vec<String>,
) -> (r: Result<CheckResult, CheckerError>)
    ensures
        spec_matches_result(
            spec_descend(
                spec_ctx_of(*store, *ts, tenant@, ctx@),
                spec_computed_key(*key, *or),
                depth as nat,
                spec_visited_set(visited@),
            ),
            r,
        ),
    decreases depth, 1nat, 1int,
{
    let key2 = TupleKey {
        user_type: key.user_type.clone(),
        user_id: key.user_id.clone(),
        user_relation: key.user_relation.clone(),
        relation: or.relation.clone(),
        object_type: key.object_type.clone(),
        object_id: key.object_id.clone(),
    };
    descend_check(store, ts, tenant, ctx, &key2, depth, visited)
}

/// A tuple-to-userset check: one list call for the tupleset tuples on the
/// object, then a union of checks of the computed relation on each object
/// they name.
fn check_tuple_to(
    store: &MemoryTupleStore,
    ts: &Typesystem,
    tenant: &String,
    ctx: &Vec<Tuple>,
    key: &TupleKey,
    ttu: &TupleToUserset,
    depth: u32,
    visited: &Vec<String>,
) -> (r: Result<CheckResult, CheckerError>)
    ensures
        spec_matches_result(
            spec_eval_rewrite(
                spec_ctx_of(*store, *ts, tenant@, ctx@),
                *key,
                Userset::TupleTo(*ttu),
                depth as nat,
                spec_visited_set(visited@),
            ),
            r,
        ),
    decreases depth, 1nat, 1int,
{
    let ghost c = spec_ctx_of(*store, *ts, tenant@, ctx@);
    let f = build_ttu_filter(key, &ttu.tupleset.relation);
    let listed = list_with_context(store, tenant, &f, ctx);
    proof {
        lemma_select_ttu_eq(store.rows@, tenant@, *key, ttu.tupleset.relation@, f);
        lemma_select_ttu_ctx_eq(ctx@, *key, ttu.tupleset.relation@, f);
        assert(listed@ == spec_listed_ttu(c, *key, ttu.tupleset.relation@));
    }
    let subkeys = build_ttu_subkeys(key, &ttu.computed_userset.relation, &listed);
    proof {
        assert(subkeys@.skip(0) =~= subkeys@);
    }
    match union_keys_check(store, ts, tenant, ctx, &subkeys, 0, depth, visited) {
        Err(e) => Err(e),
        Ok(sub) => {
            let ghost o = spec_eval_union_keys(
                c,
                subkeys@,
                depth as nat,
                spec_visited_set(visited@),
            )->Ok_0;
            proof {
                lemma_sat32_add(o.queries, 1);
            }
            Ok(
                CheckResult::new_dqc(
                    sub.allow,
                    sat_add(sub.resolution_metadata.datastore_query_count, 1),
                ),
            )
        },
    }
}

/// One descent into a sub-check: spend a depth unit, stop on a fingerprint
/// already on the path, then evaluate the target relation's rewrite.
fn descend_check(
    store: &MemoryTupleStore,
    ts: &Typesystem,
    tenant: &String,
    ctx: &Vec<Tuple>,
    key: &TupleKey,
    depth: u32,
    visited: &Vec<String>,
) -> (r: Result<CheckResult, CheckerError>)
    ensures
        spec_matches_result(
            spec_descend(
                spec_ctx_of(*store, *ts, tenant@, ctx@),
                *key,
                depth as nat,
                spec_visited_set(visited@),
            ),
            r,
        ),
    decreases depth, 0nat, 0int,
{
    if depth == 0 {
        return Err(CheckerError::DepthExceeded);
    }
    let fp = key.path_fingerprint();
    if contains_fp(visited, &fp) {
        return Ok(CheckResult::new_dqc(false, 0));
    }
    match ts.get_relation(&key.object_type, &key.relation) {
        Err(e) => Err(model_err_to_checker(e)),
        Ok(entry) => {
            let visited2 = clone_push(visited, &fp);
            proof {
                lemma_visited_push(visited@, fp);
            }
            check_rewrite(store, ts, tenant, ctx, key, &entry.rewrite, depth - 1, &visited2)
        },
    }
}

/// A union over sub-check keys from `from` on: early exit on the first
/// allowing child and on the first error; query counts add up.
fn union_keys_check(
    store: &MemoryTupleStore,
    ts: &Typesystem,
    tenant: &String,
    ctx: &Vec<Tuple>,
    keys: &Vec<TupleKey>,
    from: usize,
    depth: u32,
    visited: &Vec<String>,
) -> (r: Result<CheckResult, CheckerError>)
    requires
        from <= keys@.len(),
    ensures
        spec_matches_result(
            spec_eval_union_keys(
                spec_ctx_of(*store, *ts, tenant@, ctx@),
                keys@.skip(from as int),
                depth as nat,
                spec_visited_set(visited@),
            ),
            r,
        ),
    decreases depth, 0nat, keys@.len() - from,
{
    let ghost c = spec_ctx_of(*store, *ts, tenant@, ctx@);
    let ghost vset = spec_visited_set(visited@);
    if from == keys.len() {
        proof {
            assert(keys@.skip(from as int) =~= Seq::<TupleKey>::empty());
        }
        return Ok(CheckResult::new_dqc(false, 0));
    }
    proof {
        assert(keys@.skip(from as int)[0] == keys@[from as int]);
        assert(keys@.skip(from as int).drop_first() =~= keys@.skip(from as int + 1));
    }
    match descend_check(store, ts, tenant, ctx, &keys[from], depth, visited) {
        Err(e) => Err(e),
        Ok(first) => {
            if first.allow {
                Ok(first)
            } else {
                match union_keys_check(store, ts, tenant, ctx, keys, from + 1, depth, visited) {
                    Err(e) => Err(e),
                    Ok(rest) => {
                        let ghost o0 = spec_descend(c, keys@[from as int], depth as nat, vset)->Ok_0;
                        let ghost orest = spec_eval_union_keys(
                            c,
                            keys@.skip(from as int + 1),
                            depth as nat,
                            vset,
                        )->Ok_0;
                        proof {
                            lemma_sat32_add(o0.queries, orest.queries);
                        }
                        Ok(
                            CheckResult::new_dqc(
                                rest.allow,
                                sat_add(
                                    first.resolution_metadata.datastore_query_count,
                                    rest.resolution_metadata.datastore_query_count,
                                ),
                            ),
                        )
                    },
                }
            }
        },
    }
}

/// A union over the child rewrites from `from` on: allow on the first child
/// that allows, deny only when every child denies; later children are not
/// evaluated after a decision, and query counts of the evaluated children
/// add up.
pub fn union_check(
    store: &MemoryTupleStore,
    ts: &Typesystem,
    tenant: &String,
    ctx: &Vec<Tuple>,
    key: &TupleKey,
    children: &Vec<Userset>,
    from: usize,
    depth: u32,
    visited: &Vec<String>,
) -> (r: Result<CheckResult, CheckerError>)
    requires
        from <= children@.len(),
    ensures
        spec_matches_result(
            spec_eval_union_list(
                spec_ctx_of(*store, *ts, tenant@, ctx@),
                *key,
                children@.skip(from as int),
                depth as nat,
                spec_visited_set(visited@),
            ),
            r,
        ),
    decreases depth, spec_useq_height(children@.skip(from as int)) + 1, children@.len() - from,
{
    let ghost c = spec_ctx_of(*store, *ts, tenant@, ctx@);
    let ghost vset = spec_visited_set(visited@);
    if from == children.len() {
        proof {
            assert(children@.skip(from as int) =~= Seq::<Userset>::empty());
        }
        return Ok(CheckResult::new_dqc(false, 0));
    }
    proof {
        assert(children@.skip(from as int)[0] == children@[from as int]);
        assert(children@.skip(from as int).drop_first() =~= children@.skip(from as int + 1));
        lemma_useq_height_bound(children@.skip(from as int), 0);
        lemma_useq_height_drop(children@.skip(from as int));
    }
    match check_rewrite(store, ts, tenant, ctx, key, &children[from], depth, visited) {
        Err(e) => Err(e),
        Ok(first) => {
            if first.allow {
                Ok(first)
            } else {
                match union_check(store, ts, tenant, ctx, key, children, from + 1, depth, visited) {
                    Err(e) => Err(e),
                    Ok(rest) => {
                        let ghost o0 = spec_eval_rewrite(
                            c,
                            *key,
                            children@[from as int],
                            depth as nat,
                            vset,
                        )->Ok_0;
                        let ghost orest = spec_eval_union_list(
                            c,
                            *key,
                            children@.skip(from as int + 1),
                            depth as nat,
                            vset,
                        )->Ok_0;
                        proof {
                            lemma_sat32_add(o0.queries, orest.queries);
                        }
                        Ok(
                            CheckResult::new_dqc(
                                rest.allow,
                                sat_add(
                                    first.resolution_metadata.datastore_query_count,
                                    rest.resolution_metadata.datastore_query_count,
                                ),
                            ),
                        )
                    },
                }
            }
        },
    }
}

/// An intersection over the child rewrites from `from` on: deny on the first
/// child that denies, allow only when every child allows; later children are
/// not evaluated after a decision, and query counts add up.
pub fn intersection_check(
    store: &MemoryTupleStore,
    ts: &Typesystem,
    tenant: &String,
    ctx: &Vec<Tuple>,
    key: &TupleKey,
    children: &Vec<Userset>,
    from: usize,
    depth: u32,
    visited: &Vec<String>,
) -> (r: Result<CheckResult, CheckerError>)
    requires
        from <= children@.len(),
    ensures
        spec_matches_result(
            spec_eval_intersection_list(
                spec_ctx_of(*store, *ts, tenant@, ctx@),
                *key,
                children@.skip(from as int),
                depth as nat,
                spec_visited_set(visited@),
            ),
            r,
        ),
    decreases depth, spec_useq_height(children@.skip(from as int)) + 1, children@.len() - from,
{
    let ghost c = spec_ctx_of(*store, *ts, tenant@, ctx@);
    let ghost vset = spec_visited_set(visited@);
    if from == children.len() {
        proof {
            assert(children@.skip(from as int) =~= Seq::<Userset>::empty());
        }
        return Ok(CheckResult::new_dqc(true, 0));
    }
    proof {
        assert(children@.skip(from as int)[0] == children@[from as int]);
        assert(children@.skip(from as int).drop_first() =~= children@.skip(from as int + 1));
        lemma_useq_height_bound(children@.skip(from as int), 0);
        lemma_useq_height_drop(children@.skip(from as int));
    }
    match check_rewrite(store, ts, tenant, ctx, key, &children[from], depth, visited) {
        Err(e) => Err(e),
        Ok(first) => {
            if !first.allow {
                Ok(first)
            } else {
                match intersection_check(
                    store,
                    ts,
                    tenant,
                    ctx,
                    key,
                    children,
                    from + 1,
                    depth,
                    visited,
                ) {
                    Err(e) => Err(e),
                    Ok(rest) => {
                        let ghost o0 = spec_eval_rewrite(
                            c,
                            *key,
                            children@[from as int],
                            depth as nat,
                            vset,
                        )->Ok_0;
                        let ghost orest = spec_eval_intersection_list(
                            c,
                            *key,
                            children@.skip(from as int + 1),
                            depth as nat,
                            vset,
                        )->Ok_0;
                        proof {
                            lemma_sat32_add(o0.queries, orest.queries);
                        }
                        Ok(
                            CheckResult::new_dqc(
                                rest.allow,
                                sat_add(
                                    first.resolution_metadata.datastore_query_count,
                                    rest.resolution_metadata.datastore_query_count,
                                ),
                            ),
                        )
                    },
                }
            }
        },
    }
}

/// The difference `base \ subtract`: a denying base is decisive with the
/// base's query count; otherwise the check allows exactly when `subtract`
/// denies, and the two query counts add up.
pub fn exclusion_check(
    store: &MemoryTupleStore,
    ts: &Typesystem,
    tenant: &String,
    ctx: &Vec<Tuple>,
    key: &TupleKey,
    base: &Userset,
    subtract: &Userset,
    depth: u32,
    visited: &Vec<String>,
) -> (r: Result<CheckResult, CheckerError>)
    ensures
        spec_matches_result(
            spec_eval_exclusion(
                spec_ctx_of(*store, *ts, tenant@, ctx@),
                *key,
                *base,
                *subtract,
                depth as nat,
                spec_visited_set(visited@),
            ),
            r,
        ),
    decreases depth, spec_max_height(*base, *subtract) + 1, 3int,
{
    let ghost c = spec_ctx_of(*store, *ts, tenant@, ctx@);
    let ghost vset = spec_visited_set(visited@);
    match check_rewrite(store, ts, tenant, ctx, key, base, depth, visited) {
        Err(e) => Err(e),
        Ok(b) => {
            if !b.allow {
                Ok(CheckResult::new_dqc(false, b.resolution_metadata.datastore_query_count))
            } else {
                match check_rewrite(store, ts, tenant, ctx, key, subtract, depth, visited) {
                    Err(e) => Err(e),
                    Ok(s) => {
                        let ghost ob = spec_eval_rewrite(c, *key, *base, depth as nat, vset)->Ok_0;
                        let ghost os = spec_eval_rewrite(
                            c,
                            *key,
                            *subtract,
                            depth as nat,
                            vset,
                        )->Ok_0;
                        proof {
                            lemma_sat32_add(ob.queries, os.queries);
                        }
                        Ok(
                            CheckResult::new_dqc(
                                !s.allow,
                                sat_add(
                                    b.resolution_metadata.datastore_query_count,
                                    s.resolution_metadata.datastore_query_count,
                                ),
                            ),
                        )
                    },
                }
            }
        },
    }
}

} // verus!
