use vstd::prelude::*;

use crate::checker::EvalCtx;
use crate::checker::SpecOutcome;
use crate::checker::spec_eval_exclusion;
use crate::checker::spec_eval_intersection_list;
use crate::checker::spec_eval_rewrite;
use crate::checker::spec_eval_union_keys;
use crate::checker::spec_eval_union_list;
use crate::checker::spec_direct_grant;
use crate::checker::spec_direct_tuple_match;
use crate::checker::spec_listed_direct;
use crate::checker::spec_select_direct;
use crate::checker::spec_select_direct_ctx;
use crate::checker::spec_subject_ref_match;
use crate::checker::spec_subject_refs_match;
use crate::checker::spec_userset_subkeys;
use crate::model::RelationReference;
use crate::model::Userset;
use crate::storage::StoredTuple;
use crate::tuple::Tuple;
use crate::tuple::TupleKey;
use crate::tuple::spec_wildcard;

verus! {

/// A difference allows exactly when its base allows and its subtrahend
/// denies: whenever the difference decides at all, its decision is
/// `base and not subtract`.
pub proof fn lemma_difference_allow(
    c: EvalCtx,
    key: TupleKey,
    base: Userset,
    subtract: Userset,
    depth: nat,
    visited: Set<Seq<char>>,
)
    ensures
        spec_eval_exclusion(c, key, base, subtract, depth, visited) matches Ok(o) ==> o.allow == (
        spec_eval_rewrite(c, key, base, depth, visited) matches Ok(b) && b.allow && (
        spec_eval_rewrite(c, key, subtract, depth, visited) matches Ok(s) && !s.allow)),
{
}

/// A union of error-free children allows exactly when some child allows:
/// the decision does not depend on the order the children are tried in.
pub proof fn lemma_union_allows_exists(
    c: EvalCtx,
    key: TupleKey,
    children: Seq<Userset>,
    depth: nat,
    visited: Set<Seq<char>>,
)
    requires
        forall|i: int|
            0 <= i < children.len() ==> (#[trigger] spec_eval_rewrite(
                c,
                key,
                children[i],
                depth,
                visited,
            )) is Ok,
    ensures
        spec_eval_union_list(c, key, children, depth, visited) is Ok,
        spec_eval_union_list(c, key, children, depth, visited)->Ok_0.allow == exists|i: int|
            0 <= i < children.len() && spec_eval_rewrite(
                c,
                key,
                #[trigger] children[i],
                depth,
                visited,
            )->Ok_0.allow,
    decreases children.len(),
{
    if children.len() > 0 {
        assert(spec_eval_rewrite(c, key, children[0], depth, visited) is Ok);
        let rest = children.drop_first();
        assert forall|i: int|
            0 <= i < rest.len() implies (#[trigger] spec_eval_rewrite(
            c,
            key,
            rest[i],
            depth,
            visited,
        )) is Ok by {
            assert(rest[i] == children[i + 1]);
        }
        lemma_union_allows_exists(c, key, rest, depth, visited);
        let o0 = spec_eval_rewrite(c, key, children[0], depth, visited)->Ok_0;
        if o0.allow {
            assert(spec_eval_rewrite(c, key, children[0], depth, visited)->Ok_0.allow);
        } else {
            if spec_eval_union_list(c, key, rest, depth, visited)->Ok_0.allow {
                let i = choose|i: int|
                    0 <= i < rest.len() && spec_eval_rewrite(
                        c,
                        key,
                        #[trigger] rest[i],
                        depth,
                        visited,
                    )->Ok_0.allow;
                assert(children[i + 1] == rest[i]);
            }
            if exists|i: int|
                0 <= i < children.len() && spec_eval_rewrite(
                    c,
                    key,
                    #[trigger] children[i],
                    depth,
                    visited,
                )->Ok_0.allow {
                let i = choose|i: int|
                    0 <= i < children.len() && spec_eval_rewrite(
                        c,
                        key,
                        #[trigger] children[i],
                        depth,
                        visited,
                    )->Ok_0.allow;
                assert(i > 0);
                assert(rest[i - 1] == children[i]);
            }
        }
    }
}

/// An intersection of error-free children allows exactly when every child
/// allows.
pub proof fn lemma_intersection_allows_forall(
    c: EvalCtx,
    key: TupleKey,
    children: Seq<Userset>,
    depth: nat,
    visited: Set<Seq<char>>,
)
    requires
        forall|i: int|
            0 <= i < children.len() ==> (#[trigger] spec_eval_rewrite(
                c,
                key,
                children[i],
                depth,
                visited,
            )) is Ok,
    ensures
        spec_eval_intersection_list(c, key, children, depth, visited) is Ok,
        spec_eval_intersection_list(c, key, children, depth, visited)->Ok_0.allow == forall|i: int|
            0 <= i < children.len() ==> spec_eval_rewrite(
                c,
                key,
                #[trigger] children[i],
                depth,
                visited,
            )->Ok_0.allow,
    decreases children.len(),
{
    if children.len() > 0 {
        let rest = children.drop_first();
        assert forall|i: int|
            0 <= i < rest.len() implies (#[trigger] spec_eval_rewrite(
            c,
            key,
            rest[i],
            depth,
            visited,
        )) is Ok by {
            assert(rest[i] == children[i + 1]);
        }
        lemma_intersection_allows_forall(c, key, rest, depth, visited);
        let lhs = spec_eval_intersection_list(c, key, children, depth, visited)->Ok_0.allow;
        let rhs = forall|i: int|
            0 <= i < children.len() ==> spec_eval_rewrite(
                c,
                key,
                #[trigger] children[i],
                depth,
                visited,
            )->Ok_0.allow;
        if lhs {
            assert forall|i: int| 0 <= i < children.len() implies spec_eval_rewrite(
                c,
                key,
                #[trigger] children[i],
                depth,
                visited,
            )->Ok_0.allow by {
                if i > 0 {
                    assert(rest[i - 1] == children[i]);
                }
            }
        }
        if rhs {
            assert(spec_eval_rewrite(c, key, children[0], depth, visited)->Ok_0.allow);
            assert forall|i: int| 0 <= i < rest.len() implies spec_eval_rewrite(
                c,
                key,
                #[trigger] rest[i],
                depth,
                visited,
            )->Ok_0.allow by {
                assert(children[i + 1] == rest[i]);
            }
        }
    }
}

/// A union decides over concatenated child lists as the disjunction of the
/// two parts' decisions: evaluation order groups freely (associativity).
pub proof fn lemma_union_append(
    c: EvalCtx,
    key: TupleKey,
    s1: Seq<Userset>,
    s2: Seq<Userset>,
    depth: nat,
    visited: Set<Seq<char>>,
)
    requires
        forall|i: int|
            0 <= i < s1.len() ==> (#[trigger] spec_eval_rewrite(c, key, s1[i], depth, visited))
                is Ok,
        forall|i: int|
            0 <= i < s2.len() ==> (#[trigger] spec_eval_rewrite(c, key, s2[i], depth, visited))
                is Ok,
    ensures
        spec_eval_union_list(c, key, s1 + s2, depth, visited) is Ok,
        spec_eval_union_list(c, key, s1 + s2, depth, visited)->Ok_0.allow == (spec_eval_union_list(
            c,
            key,
            s1,
            depth,
            visited,
        )->Ok_0.allow || spec_eval_union_list(c, key, s2, depth, visited)->Ok_0.allow),
{
    let s = s1 + s2;
    assert forall|i: int|
        0 <= i < s.len() implies (#[trigger] spec_eval_rewrite(c, key, s[i], depth, visited))
        is Ok by {
        if i < s1.len() {
            assert(s[i] == s1[i]);
        } else {
            assert(s[i] == s2[i - s1.len()]);
        }
    }
    lemma_union_allows_exists(c, key, s, depth, visited);
    lemma_union_allows_exists(c, key, s1, depth, visited);
    lemma_union_allows_exists(c, key, s2, depth, visited);
    if spec_eval_union_list(c, key, s, depth, visited)->Ok_0.allow {
        let i = choose|i: int|
            0 <= i < s.len() && spec_eval_rewrite(c, key, #[trigger] s[i], depth, visited)
                ->Ok_0.allow;
        if i < s1.len() {
            assert(s1[i] == s[i]);
        } else {
            assert(s2[i - s1.len()] == s[i]);
        }
    }
    if spec_eval_union_list(c, key, s1, depth, visited)->Ok_0.allow {
        let i = choose|i: int|
            0 <= i < s1.len() && spec_eval_rewrite(c, key, #[trigger] s1[i], depth, visited)
                ->Ok_0.allow;
        assert(s[i] == s1[i]);
    }
    if spec_eval_union_list(c, key, s2, depth, visited)->Ok_0.allow {
        let i = choose|i: int|
            0 <= i < s2.len() && spec_eval_rewrite(c, key, #[trigger] s2[i], depth, visited)
                ->Ok_0.allow;
        assert(s[s1.len() + i] == s2[i]);
    }
}

/// Any two orders of the same error-free children decide a union alike:
/// union decision is invariant under permutation (commutativity, and the
/// order-independence that makes parallel evaluation sound).
pub proof fn lemma_union_permutation(
    c: EvalCtx,
    key: TupleKey,
    s1: Seq<Userset>,
    s2: Seq<Userset>,
    depth: nat,
    visited: Set<Seq<char>>,
)
    requires
        s1.to_multiset() == s2.to_multiset(),
        forall|i: int|
            0 <= i < s1.len() ==> (#[trigger] spec_eval_rewrite(c, key, s1[i], depth, visited))
                is Ok,
    ensures
        spec_eval_union_list(c, key, s1, depth, visited) is Ok,
        spec_eval_union_list(c, key, s2, depth, visited) is Ok,
        spec_eval_union_list(c, key, s1, depth, visited)->Ok_0.allow == spec_eval_union_list(
            c,
            key,
            s2,
            depth,
            visited,
        )->Ok_0.allow,
{
    s1.to_multiset_ensures();
    s2.to_multiset_ensures();
    assert forall|i: int|
        0 <= i < s2.len() implies (#[trigger] spec_eval_rewrite(c, key, s2[i], depth, visited))
        is Ok by {
        assert(s2.to_multiset().count(s2[i]) > 0);
        assert(s1.contains(s2[i]));
        let j = choose|j: int| 0 <= j < s1.len() && s1[j] == s2[i];
        assert(spec_eval_rewrite(c, key, s1[j], depth, visited) is Ok);
    }
    lemma_union_allows_exists(c, key, s1, depth, visited);
    lemma_union_allows_exists(c, key, s2, depth, visited);
    if spec_eval_union_list(c, key, s1, depth, visited)->Ok_0.allow {
        let i = choose|i: int|
            0 <= i < s1.len() && spec_eval_rewrite(c, key, #[trigger] s1[i], depth, visited)
                ->Ok_0.allow;
        assert(s1.to_multiset().count(s1[i]) > 0);
        assert(s2.contains(s1[i]));
        let j = choose|j: int| 0 <= j < s2.len() && s2[j] == s1[i];
        assert(spec_eval_rewrite(c, key, s2[j], depth, visited)->Ok_0.allow);
    }
    if spec_eval_union_list(c, key, s2, depth, visited)->Ok_0.allow {
        let i = choose|i: int|
            0 <= i < s2.len() && spec_eval_rewrite(c, key, #[trigger] s2[i], depth, visited)
                ->Ok_0.allow;
        assert(s2.to_multiset().count(s2[i]) > 0);
        assert(s1.contains(s2[i]));
        let j = choose|j: int| 0 <= j < s1.len() && s1[j] == s2[i];
        assert(spec_eval_rewrite(c, key, s1[j], depth, visited)->Ok_0.allow);
    }
}

/// The same, for intersections.
pub proof fn lemma_intersection_permutation(
    c: EvalCtx,
    key: TupleKey,
    s1: Seq<Userset>,
    s2: Seq<Userset>,
    depth: nat,
    visited: Set<Seq<char>>,
)
    requires
        s1.to_multiset() == s2.to_multiset(),
        forall|i: int|
            0 <= i < s1.len() ==> (#[trigger] spec_eval_rewrite(c, key, s1[i], depth, visited))
                is Ok,
    ensures
        spec_eval_intersection_list(c, key, s1, depth, visited) is Ok,
        spec_eval_intersection_list(c, key, s2, depth, visited) is Ok,
        spec_eval_intersection_list(c, key, s1, depth, visited)->Ok_0.allow
            == spec_eval_intersection_list(c, key, s2, depth, visited)->Ok_0.allow,
{
    s1.to_multiset_ensures();
    s2.to_multiset_ensures();
    assert forall|i: int|
        0 <= i < s2.len() implies (#[trigger] spec_eval_rewrite(c, key, s2[i], depth, visited))
        is Ok by {
        assert(s2.to_multiset().count(s2[i]) > 0);
        assert(s1.contains(s2[i]));
        let j = choose|j: int| 0 <= j < s1.len() && s1[j] == s2[i];
        assert(spec_eval_rewrite(c, key, s1[j], depth, visited) is Ok);
    }
    lemma_intersection_allows_forall(c, key, s1, depth, visited);
    lemma_intersection_allows_forall(c, key, s2, depth, visited);
    if spec_eval_intersection_list(c, key, s1, depth, visited)->Ok_0.allow {
        assert forall|i: int| 0 <= i < s2.len() implies spec_eval_rewrite(
            c,
            key,
            #[trigger] s2[i],
            depth,
            visited,
        )->Ok_0.allow by {
            assert(s2.to_multiset().count(s2[i]) > 0);
            assert(s1.contains(s2[i]));
            let j = choose|j: int| 0 <= j < s1.len() && s1[j] == s2[i];
            assert(spec_eval_rewrite(c, key, s1[j], depth, visited)->Ok_0.allow);
        }
    }
    if spec_eval_intersection_list(c, key, s2, depth, visited)->Ok_0.allow {
        assert forall|i: int| 0 <= i < s1.len() implies spec_eval_rewrite(
            c,
            key,
            #[trigger] s1[i],
            depth,
            visited,
        )->Ok_0.allow by {
            assert(s1.to_multiset().count(s1[i]) > 0);
            assert(s2.contains(s1[i]));
            let j = choose|j: int| 0 <= j < s2.len() && s2[j] == s1[i];
            assert(spec_eval_rewrite(c, key, s2[j], depth, visited)->Ok_0.allow);
        }
    }
}

/// Does the declared reference `r` admit no tuple at all as a subject of
/// `key`'s shape?  A plain or wildcard reference of another type admits
/// nothing; a userset reference admits nothing only when it names the
/// subject's own type under a different relation, since a userset
/// reference of another type is always followed.
pub open spec fn spec_ref_shape_excluded(r: RelationReference, key: TupleKey) -> bool {
    match r {
        RelationReference::Direct(t) => t@ != key.user_type@,
        RelationReference::Wildcard(t) => t@ != key.user_type@,
        RelationReference::Relation { typ, relation } => typ@ == key.user_type@ && relation@
            != key.user_relation@,
    }
}

/// When every declared reference excludes the subject's shape, no subject
/// shape matches any tuple.
proof fn lemma_no_ref_no_match(refs: Seq<RelationReference>, key: TupleKey, t: Tuple)
    requires
        forall|i: int| 0 <= i < refs.len() ==> spec_ref_shape_excluded(#[trigger] refs[i], key),
    ensures
        !spec_subject_refs_match(refs, key, t),
{
    assert forall|i: int| 0 <= i < refs.len() implies !spec_subject_ref_match(
        #[trigger] refs[i],
        key,
        t,
    ) by {
        assert(spec_ref_shape_excluded(refs[i], key));
    }
}

/// A direct listing with an unmatchable subject filter returns nothing.
proof fn lemma_select_direct_unmatched(
    rows: Seq<StoredTuple>,
    tenant: Seq<char>,
    key: TupleKey,
    refs: Seq<RelationReference>,
)
    requires
        forall|i: int| 0 <= i < refs.len() ==> spec_ref_shape_excluded(#[trigger] refs[i], key),
    ensures
        spec_select_direct(rows, tenant, key, refs) == Seq::<Tuple>::empty(),
    decreases rows.len(),
{
    if rows.len() > 0 {
        lemma_no_ref_no_match(refs, key, rows[0].tuple);
        lemma_select_direct_unmatched(rows.drop_first(), tenant, key, refs);
    }
}

/// The same, over contextual tuples.
proof fn lemma_select_direct_ctx_unmatched(
    ctx: Seq<Tuple>,
    key: TupleKey,
    refs: Seq<RelationReference>,
)
    requires
        forall|i: int| 0 <= i < refs.len() ==> spec_ref_shape_excluded(#[trigger] refs[i], key),
    ensures
        spec_select_direct_ctx(ctx, key, refs) == Seq::<Tuple>::empty(),
    decreases ctx.len(),
{
    if ctx.len() > 0 {
        lemma_no_ref_no_match(refs, key, ctx[0]);
        lemma_select_direct_ctx_unmatched(ctx.drop_first(), key, refs);
    }
}

/// The direct-type gate: when none of the relation's declared direct
/// references admits the requested subject's shape — in particular, when
/// the subject's type appears in none of them and no userset reference of
/// another type is declared — a `This` check denies after exactly one
/// datastore query.
pub proof fn lemma_direct_type_gate(c: EvalCtx, key: TupleKey, depth: nat, visited: Set<Seq<char>>)
    requires
        crate::model::spec_get_relation(c.ts, key.object_type@, key.relation@) matches Ok(e)
            && e.metadata.directly_related_user_types@.len() > 0 && forall|i: int|
            0 <= i < e.metadata.directly_related_user_types@.len() ==> spec_ref_shape_excluded(
                #[trigger] e.metadata.directly_related_user_types@[i],
                key,
            ),
    ensures
        spec_eval_rewrite(c, key, Userset::This, depth, visited) == Ok::<
            SpecOutcome,
            crate::checker::SpecCheckErr,
        >(SpecOutcome { allow: false, queries: 1 }),
{
    let e = crate::model::spec_get_relation(c.ts, key.object_type@, key.relation@)->Ok_0;
    let refs = e.metadata.directly_related_user_types@;
    lemma_select_direct_unmatched(c.rows, c.tenant, key, refs);
    lemma_select_direct_ctx_unmatched(c.ctx, key, refs);
    let listed = spec_listed_direct(c, key, refs);
    assert(listed =~= Seq::<Tuple>::empty());
    assert(!spec_direct_grant(key, listed));
    assert(spec_userset_subkeys(key, listed) =~= Seq::<TupleKey>::empty());
    assert(spec_eval_union_keys(c, spec_userset_subkeys(key, listed), depth, visited) == Ok::<
        SpecOutcome,
        crate::checker::SpecCheckErr,
    >(SpecOutcome { allow: false, queries: 0 }));
}

/// A direct listing returns every stored tuple of the tenant that matches.
proof fn lemma_select_direct_has(
    rows: Seq<StoredTuple>,
    tenant: Seq<char>,
    key: TupleKey,
    refs: Seq<RelationReference>,
    j: int,
)
    requires
        0 <= j < rows.len(),
        rows[j].tenant_id@ == tenant,
        spec_direct_tuple_match(key, refs, rows[j].tuple),
    ensures
        exists|k: int|
            0 <= k < spec_select_direct(rows, tenant, key, refs).len() && #[trigger] spec_select_direct(
                rows,
                tenant,
                key,
                refs,
            )[k] == rows[j].tuple,
    decreases rows.len(),
{
    if j == 0 {
        assert(spec_select_direct(rows, tenant, key, refs)[0] == rows[0].tuple);
    } else {
        lemma_select_direct_has(rows.drop_first(), tenant, key, refs, j - 1);
        assert(rows.drop_first()[j - 1] == rows[j]);
        let rest = spec_select_direct(rows.drop_first(), tenant, key, refs);
        let k = choose|k: int| 0 <= k < rest.len() && rest[k] == rows[j].tuple;
        if rows[0].tenant_id@ == tenant && spec_direct_tuple_match(key, refs, rows[0].tuple) {
            assert(spec_select_direct(rows, tenant, key, refs)[k + 1] == rows[j].tuple);
        } else {
            assert(spec_select_direct(rows, tenant, key, refs)[k] == rows[j].tuple);
        }
    }
}

/// Wildcard semantics: a stored `type:*` tuple on the object and relation,
/// together with a declared wildcard reference for the requested type,
/// makes a `This` check of any id of that type allow at one query.
pub proof fn lemma_wildcard_allows(
    c: EvalCtx,
    key: TupleKey,
    depth: nat,
    visited: Set<Seq<char>>,
    ri: int,
    wi: int,
)
    requires
        crate::model::spec_get_relation(c.ts, key.object_type@, key.relation@) matches Ok(e)
            && e.metadata.directly_related_user_types@.len() > 0 && 0 <= ri
            < e.metadata.directly_related_user_types@.len() && (
        e.metadata.directly_related_user_types@[ri] matches RelationReference::Wildcard(t) && t@
            == key.user_type@),
        key.user_relation@.len() == 0,
        0 <= wi < c.rows.len(),
        c.rows[wi].tenant_id@ == c.tenant,
        c.rows[wi].tuple.object_type@ == key.object_type@,
        c.rows[wi].tuple.object_id@ == key.object_id@,
        c.rows[wi].tuple.relation@ == key.relation@,
        c.rows[wi].tuple.user_type@ == key.user_type@,
        c.rows[wi].tuple.user_id@ == spec_wildcard(),
        c.rows[wi].tuple.user_relation is None,
    ensures
        spec_eval_rewrite(c, key, Userset::This, depth, visited) == Ok::<
            SpecOutcome,
            crate::checker::SpecCheckErr,
        >(SpecOutcome { allow: true, queries: 1 }),
{
    let e = crate::model::spec_get_relation(c.ts, key.object_type@, key.relation@)->Ok_0;
    let refs = e.metadata.directly_related_user_types@;
    let t = c.rows[wi].tuple;
    assert(spec_subject_ref_match(refs[ri], key, t));
    assert(spec_direct_tuple_match(key, refs, t));
    lemma_select_direct_has(c.rows, c.tenant, key, refs, wi);
    let listed = spec_listed_direct(c, key, refs);
    let sel = spec_select_direct(c.rows, c.tenant, key, refs);
    let k = choose|k: int| 0 <= k < sel.len() && #[trigger] sel[k] == t;
    assert(listed[k] == t);
    assert(spec_direct_grant(key, listed));
}

/// An expansion leaf listing returns every stored tuple of the tenant that
/// matches its filter.
proof fn lemma_select_leaf_has(
    rows: Seq<StoredTuple>,
    tenant: Seq<char>,
    f: crate::expander::SpecLeafFilter,
    j: int,
)
    requires
        0 <= j < rows.len(),
        rows[j].tenant_id@ == tenant,
        crate::expander::spec_leaf_matches(f, rows[j].tuple),
    ensures
        exists|k: int|
            0 <= k < crate::expander::spec_select_leaf(rows, tenant, f).len()
                && #[trigger] crate::expander::spec_select_leaf(rows, tenant, f)[k] == rows[
            j].tuple,
    decreases rows.len(),
{
    if j == 0 {
        assert(crate::expander::spec_select_leaf(rows, tenant, f)[0] == rows[0].tuple);
    } else {
        lemma_select_leaf_has(rows.drop_first(), tenant, f, j - 1);
        assert(rows.drop_first()[j - 1] == rows[j]);
        let rest = crate::expander::spec_select_leaf(rows.drop_first(), tenant, f);
        let k = choose|k: int| 0 <= k < rest.len() && #[trigger] rest[k] == rows[j].tuple;
        if rows[0].tenant_id@ == tenant && crate::expander::spec_leaf_matches(f, rows[0].tuple) {
            assert(crate::expander::spec_select_leaf(rows, tenant, f)[k + 1] == rows[j].tuple);
        } else {
            assert(crate::expander::spec_select_leaf(rows, tenant, f)[k] == rows[j].tuple);
        }
    }
}

/// A successful reverse expansion over direct references includes the
/// subject of every stored direct tuple whose type a reference declares.
proof fn lemma_users_refs_has(
    ts: crate::model::Typesystem,
    rows: Seq<StoredTuple>,
    tenant: Seq<char>,
    refs: Seq<RelationReference>,
    relation: String,
    object_type: String,
    object_id: String,
    user_type: String,
    depth: nat,
    ri: int,
    wi: int,
)
    requires
        crate::users_expander::spec_users_refs(
            ts,
            rows,
            tenant,
            refs,
            relation,
            object_type,
            object_id,
            user_type,
            None,
            depth,
        ) is Ok,
        0 <= ri < refs.len(),
        refs[ri] matches RelationReference::Direct(t) && t@ == user_type@,
        0 <= wi < rows.len(),
        rows[wi].tenant_id@ == tenant,
        rows[wi].tuple.object_type@ == object_type@,
        rows[wi].tuple.object_id@ == object_id@,
        rows[wi].tuple.relation@ == relation@,
        rows[wi].tuple.user_type@ == user_type@,
        rows[wi].tuple.user_relation is None,
    ensures
        crate::users_expander::spec_users_refs(
            ts,
            rows,
            tenant,
            refs,
            relation,
            object_type,
            object_id,
            user_type,
            None,
            depth,
        )->Ok_0.contains(rows[wi].tuple.user_id@),
    decreases refs.len(),
{
    let result = crate::users_expander::spec_users_refs(
        ts,
        rows,
        tenant,
        refs,
        relation,
        object_type,
        object_id,
        user_type,
        None,
        depth,
    );
    let uid = rows[wi].tuple.user_id@;
    if ri == 0 {
        let typ = refs[0]->Direct_0;
        let f = crate::expander::SpecLeafFilter {
            object_type_eq: Some(object_type@),
            object_id_eq: Some(object_id@),
            relation_eq: Some(relation@),
            user_type_eq: Some(typ@),
            user_id_eq: None,
            user_id_in: None,
            user_relation_eq: None,
            user_relation_is_null: Some(true),
        };
        assert(crate::expander::spec_leaf_matches(f, rows[wi].tuple));
        lemma_select_leaf_has(rows, tenant, f, wi);
        let sel = crate::expander::spec_select_leaf(rows, tenant, f);
        let k = choose|k: int| 0 <= k < sel.len() && #[trigger] sel[k] == rows[wi].tuple;
        assert(crate::expander::spec_user_ids_of(sel).contains(uid));
    } else {
        assert(refs.drop_first()[ri - 1] == refs[ri]);
        lemma_users_refs_has(
            ts,
            rows,
            tenant,
            refs.drop_first(),
            relation,
            object_type,
            object_id,
            user_type,
            depth,
            ri - 1,
            wi,
        );
    }
}

/// Expansion round trip, subjects side: for a stored direct tuple whose
/// subject type the relation's `This` leaf declares, a successful
/// `list_users` of the object includes the tuple's subject id.
pub proof fn lemma_users_roundtrip(
    ts: crate::model::Typesystem,
    rows: Seq<StoredTuple>,
    tenant: Seq<char>,
    relation: String,
    object_type: String,
    object_id: String,
    user_type: String,
    depth: nat,
    ri: int,
    wi: int,
)
    requires
        depth > 0,
        crate::users_expander::spec_users(
            ts,
            rows,
            tenant,
            relation,
            object_type,
            object_id,
            user_type,
            None,
            depth,
        ) is Ok,
        crate::model::spec_get_relation(ts, object_type@, relation@) matches Ok(e) && e.rewrite
            is This && 0 <= ri < e.metadata.directly_related_user_types@.len() && (
        e.metadata.directly_related_user_types@[ri] matches RelationReference::Direct(t) && t@
            == user_type@),
        0 <= wi < rows.len(),
        rows[wi].tenant_id@ == tenant,
        rows[wi].tuple.object_type@ == object_type@,
        rows[wi].tuple.object_id@ == object_id@,
        rows[wi].tuple.relation@ == relation@,
        rows[wi].tuple.user_type@ == user_type@,
        rows[wi].tuple.user_relation is None,
    ensures
        crate::users_expander::spec_users(
            ts,
            rows,
            tenant,
            relation,
            object_type,
            object_id,
            user_type,
            None,
            depth,
        )->Ok_0.contains(rows[wi].tuple.user_id@),
{
    let e = crate::model::spec_get_relation(ts, object_type@, relation@)->Ok_0;
    lemma_users_refs_has(
        ts,
        rows,
        tenant,
        e.metadata.directly_related_user_types@,
        relation,
        object_type,
        object_id,
        user_type,
        depth,
        ri,
        wi,
    );
}

/// A successful forward expansion over direct references includes the
/// object of every stored direct tuple naming the given subject.
proof fn lemma_objects_refs_has(
    ts: crate::model::Typesystem,
    rows: Seq<StoredTuple>,
    tenant: Seq<char>,
    refs: Seq<RelationReference>,
    relation: String,
    object_type: String,
    user_type: String,
    user_id: String,
    depth: nat,
    ri: int,
    wi: int,
)
    requires
        crate::objects_expander::spec_objects_refs(
            ts,
            rows,
            tenant,
            refs,
            relation,
            object_type,
            user_type,
            user_id,
            None,
            depth,
        ) is Ok,
        0 <= ri < refs.len(),
        refs[ri] matches RelationReference::Direct(t) && t@ == user_type@,
        0 <= wi < rows.len(),
        rows[wi].tenant_id@ == tenant,
        rows[wi].tuple.object_type@ == object_type@,
        rows[wi].tuple.relation@ == relation@,
        rows[wi].tuple.user_type@ == user_type@,
        rows[wi].tuple.user_id@ == user_id@,
        rows[wi].tuple.user_relation is None,
    ensures
        crate::objects_expander::spec_objects_refs(
            ts,
            rows,
            tenant,
            refs,
            relation,
            object_type,
            user_type,
            user_id,
            None,
            depth,
        )->Ok_0.contains(rows[wi].tuple.object_id@),
    decreases refs.len(),
{
    let oid = rows[wi].tuple.object_id@;
    if ri == 0 {
        let typ = refs[0]->Direct_0;
        let f = crate::expander::SpecLeafFilter {
            object_type_eq: Some(object_type@),
            object_id_eq: None,
            relation_eq: Some(relation@),
            user_type_eq: Some(typ@),
            user_id_eq: Some(user_id@),
            user_id_in: None,
            user_relation_eq: None,
            user_relation_is_null: Some(true),
        };
        assert(crate::expander::spec_leaf_matches(f, rows[wi].tuple));
        lemma_select_leaf_has(rows, tenant, f, wi);
        let sel = crate::expander::spec_select_leaf(rows, tenant, f);
        let k = choose|k: int| 0 <= k < sel.len() && #[trigger] sel[k] == rows[wi].tuple;
        assert(crate::expander::spec_object_ids_of(sel).contains(oid));
    } else {
        assert(refs.drop_first()[ri - 1] == refs[ri]);
        lemma_objects_refs_has(
            ts,
            rows,
            tenant,
            refs.drop_first(),
            relation,
            object_type,
            user_type,
            user_id,
            depth,
            ri - 1,
            wi,
        );
    }
}

/// Expansion round trip, objects side: for a stored direct tuple whose
/// subject type the relation's `This` leaf declares, a successful
/// `list_objects` of the subject includes the tuple's object id.
pub proof fn lemma_objects_roundtrip(
    ts: crate::model::Typesystem,
    rows: Seq<StoredTuple>,
    tenant: Seq<char>,
    relation: String,
    object_type: String,
    user_type: String,
    user_id: String,
    depth: nat,
    ri: int,
    wi: int,
)
    requires
        depth > 0,
        crate::objects_expander::spec_objects(
            ts,
            rows,
            tenant,
            relation,
            object_type,
            user_type,
            user_id,
            None,
            depth,
        ) is Ok,
        crate::model::spec_get_relation(ts, object_type@, relation@) matches Ok(e) && e.rewrite
            is This && 0 <= ri < e.metadata.directly_related_user_types@.len() && (
        e.metadata.directly_related_user_types@[ri] matches RelationReference::Direct(t) && t@
            == user_type@),
        0 <= wi < rows.len(),
        rows[wi].tenant_id@ == tenant,
        rows[wi].tuple.object_type@ == object_type@,
        rows[wi].tuple.relation@ == relation@,
        rows[wi].tuple.user_type@ == user_type@,
        rows[wi].tuple.user_id@ == user_id@,
        rows[wi].tuple.user_relation is None,
    ensures
        crate::objects_expander::spec_objects(
            ts,
            rows,
            tenant,
            relation,
            object_type,
            user_type,
            user_id,
            None,
            depth,
        )->Ok_0.contains(rows[wi].tuple.object_id@),
{
    let e = crate::model::spec_get_relation(ts, object_type@, relation@)->Ok_0;
    lemma_objects_refs_has(
        ts,
        rows,
        tenant,
        e.metadata.directly_related_user_types@,
        relation,
        object_type,
        user_type,
        user_id,
        depth,
        ri,
        wi,
    );
}

/// Caching is idempotent: once a successful decision for a fingerprint is
/// memoized within capacity, the cache holds that very decision for it,
/// still within capacity, so a repeated identical request is answered from
/// the cache with the same decision and no datastore queries.
pub proof fn lemma_cache_idempotent(m0: Map<Seq<char>, bool>, cap: nat, fpr: Seq<char>, allow: bool)
    requires
        m0.dom().finite(),
        !m0.contains_key(fpr),
        m0.len() < cap,
    ensures
        m0.insert(fpr, allow).contains_key(fpr),
        m0.insert(fpr, allow)[fpr] == allow,
        m0.insert(fpr, allow).len() <= cap,
{
    assert(m0.insert(fpr, allow).dom() =~= m0.dom().insert(fpr));
    vstd::set::axiom_set_insert_len(m0.dom(), fpr);
}

} // verus!
