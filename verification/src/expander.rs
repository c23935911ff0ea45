use vstd::prelude::*;

use crate::model::SpecModelErr;
use crate::model::Typesystem;
use crate::model::Userset;
use crate::model::spec_get_relation;
use crate::storage::MemoryTupleStore;
use crate::storage::StoredTuple;
use crate::storage::TupleFilter;
use crate::storage::spec_contains_str;
use crate::storage::spec_filter_matches;
use crate::storage::spec_select;
use crate::tuple::Tuple;

verus! {

/// Failures of the expanders.
#[derive(Clone, Debug)]
pub enum ExpanderError {
    NotOnlyDirect { tupleset: String },
    NotFoundRelations { object_type: String },
    NotFoundRelation { relation: String },
}

/// The mathematical image of an `ExpanderError`.
pub enum SpecExpErr {
    NotOnlyDirect { tupleset: Seq<char> },
    NotFoundRelations { object_type: Seq<char> },
    NotFoundRelation { relation: Seq<char> },
}

impl View for ExpanderError {
    type V = SpecExpErr;

    open spec fn view(&self) -> SpecExpErr {
        match self {
            ExpanderError::NotOnlyDirect { tupleset } => SpecExpErr::NotOnlyDirect {
                tupleset: tupleset@,
            },
            ExpanderError::NotFoundRelations { object_type } => SpecExpErr::NotFoundRelations {
                object_type: object_type@,
            },
            ExpanderError::NotFoundRelation { relation } => SpecExpErr::NotFoundRelation {
                relation: relation@,
            },
        }
    }
}

/// How a failed model lookup surfaces from an expander.
pub open spec fn spec_model_err_to_exp_err(e: SpecModelErr) -> SpecExpErr {
    match e {
        SpecModelErr::NotFoundRelations { object_type } => SpecExpErr::NotFoundRelations {
            object_type,
        },
        SpecModelErr::NotFoundRelation { relation } => SpecExpErr::NotFoundRelation { relation },
    }
}

/// Turn a failed model lookup into the expander's error for it.
pub(crate) fn model_err_to_expander(e: crate::model::ModelError) -> (r: ExpanderError)
    ensures
        r@ == spec_model_err_to_exp_err(e@),
{
    match e {
        crate::model::ModelError::NotFoundRelations(object_type) => {
            ExpanderError::NotFoundRelations { object_type }
        },
        crate::model::ModelError::NotFoundRelation(relation) => ExpanderError::NotFoundRelation {
            relation,
        },
    }
}

/// A conjunction of per-field constraints an expansion leaf lists tuples
/// with, at the specification level.
pub struct SpecLeafFilter {
    pub object_type_eq: Option<Seq<char>>,
    pub object_id_eq: Option<Seq<char>>,
    pub relation_eq: Option<Seq<char>>,
    pub user_type_eq: Option<Seq<char>>,
    pub user_id_eq: Option<Seq<char>>,
    pub user_id_in: Option<Set<Seq<char>>>,
    pub user_relation_eq: Option<Seq<char>>,
    pub user_relation_is_null: Option<bool>,
}

/// Does the optional constraint `c` accept the field reading `v`?
pub open spec fn spec_leaf_eq(c: Option<Seq<char>>, v: Seq<char>) -> bool {
    match c {
        None => true,
        Some(s) => s == v,
    }
}

/// Does the tuple `t` satisfy every constraint of `f`?
pub open spec fn spec_leaf_matches(f: SpecLeafFilter, t: Tuple) -> bool {
    &&& spec_leaf_eq(f.object_type_eq, t.object_type@)
    &&& spec_leaf_eq(f.object_id_eq, t.object_id@)
    &&& spec_leaf_eq(f.relation_eq, t.relation@)
    &&& spec_leaf_eq(f.user_type_eq, t.user_type@)
    &&& spec_leaf_eq(f.user_id_eq, t.user_id@)
    &&& match f.user_id_in {
        None => true,
        Some(ids) => ids.contains(t.user_id@),
    }
    &&& match f.user_relation_eq {
        None => true,
        Some(s) => t.user_relation matches Some(r) && r@ == s,
    }
    &&& match f.user_relation_is_null {
        None => true,
        Some(b) => b == (t.user_relation is None),
    }
}

/// The tuples of `tenant` matching `f`, in row order.
pub open spec fn spec_select_leaf(
    rows: Seq<StoredTuple>,
    tenant: Seq<char>,
    f: SpecLeafFilter,
) -> Seq<Tuple>
    decreases rows.len(),
{
    if rows.len() == 0 {
        Seq::empty()
    } else {
        let rest = spec_select_leaf(rows.drop_first(), tenant, f);
        if rows[0].tenant_id@ == tenant && spec_leaf_matches(f, rows[0].tuple) {
            seq![rows[0].tuple] + rest
        } else {
            rest
        }
    }
}

/// A store filter that matches as `sf` does selects exactly the `sf` rows.
proof fn lemma_select_leaf_eq(
    rows: Seq<StoredTuple>,
    tenant: Seq<char>,
    sf: SpecLeafFilter,
    f: TupleFilter,
)
    requires
        forall|t: Tuple| #[trigger] spec_filter_matches(f, t) == spec_leaf_matches(sf, t),
    ensures
        spec_select(rows, tenant, f) == spec_select_leaf(rows, tenant, sf),
    decreases rows.len(),
{
    if rows.len() > 0 {
        lemma_select_leaf_eq(rows.drop_first(), tenant, sf, f);
    }
}

/// The view of an optional string constraint.
pub open spec fn spec_opt_view(o: Option<String>) -> Option<Seq<char>> {
    match o {
        None => None,
        Some(s) => Some(s@),
    }
}

/// The set of readings of a sequence of strings.
pub open spec fn spec_id_set(v: Seq<String>) -> Set<Seq<char>> {
    Set::new(|x: Seq<char>| exists|i: int| 0 <= i < v.len() && v[i]@ == x)
}

/// The leaf filter the executable constraints stand for.
pub open spec fn spec_leaf_of(
    object_type_eq: Option<String>,
    object_id_eq: Option<String>,
    relation_eq: Option<String>,
    user_type_eq: Option<String>,
    user_id_eq: Option<String>,
    user_id_in: Option<Vec<String>>,
    user_relation_eq: Option<String>,
    user_relation_is_null: Option<bool>,
) -> SpecLeafFilter {
    SpecLeafFilter {
        object_type_eq: spec_opt_view(object_type_eq),
        object_id_eq: spec_opt_view(object_id_eq),
        relation_eq: spec_opt_view(relation_eq),
        user_type_eq: spec_opt_view(user_type_eq),
        user_id_eq: spec_opt_view(user_id_eq),
        user_id_in: match user_id_in {
            None => None,
            Some(ids) => Some(spec_id_set(ids@)),
        },
        user_relation_eq: spec_opt_view(user_relation_eq),
        user_relation_is_null,
    }
}

/// One expansion list call: the tuples of `tenant_id` that match the given
/// constraints, in insertion order.
pub(crate) fn list_leaf(
    store: &MemoryTupleStore,
    tenant_id: &String,
    object_type_eq: Option<String>,
    object_id_eq: Option<String>,
    relation_eq: Option<String>,
    user_type_eq: Option<String>,
    user_id_eq: Option<String>,
    user_id_in: Option<Vec<String>>,
    user_relation_eq: Option<String>,
    user_relation_is_null: Option<bool>,
) -> (r: Vec<Tuple>)
    ensures
        r@ == spec_select_leaf(
            store.rows@,
            tenant_id@,
            spec_leaf_of(
                object_type_eq,
                object_id_eq,
                relation_eq,
                user_type_eq,
                user_id_eq,
                user_id_in,
                user_relation_eq,
                user_relation_is_null,
            ),
        ),
{
    let ghost sf = spec_leaf_of(
        object_type_eq,
        object_id_eq,
        relation_eq,
        user_type_eq,
        user_id_eq,
        user_id_in,
        user_relation_eq,
        user_relation_is_null,
    );
    let mut f = TupleFilter::empty();
    f.object_type_eq = object_type_eq;
    f.object_id_eq = object_id_eq;
    f.relation_eq = relation_eq;
    f.user_type_eq = user_type_eq;
    f.user_id_eq = user_id_eq;
    f.user_id_in = user_id_in;
    f.user_relation_eq = user_relation_eq;
    f.user_relation_is_null = user_relation_is_null;
    proof {
        assert forall|t: Tuple| #[trigger] spec_filter_matches(f, t) == spec_leaf_matches(
            sf,
            t,
        ) by {
            match f.user_id_in {
                Some(ids) => {
                    assert(spec_contains_str(ids@, t.user_id@) == spec_id_set(ids@).contains(
                        t.user_id@,
                    ));
                },
                None => {},
            }
        }
        lemma_select_leaf_eq(store.rows@, tenant_id@, sf, f);
    }
    store.list(tenant_id, &f)
}

/// The set of subject ids among the listed tuples.
pub open spec fn spec_user_ids_of(sel: Seq<Tuple>) -> Set<Seq<char>> {
    Set::new(|x: Seq<char>| exists|k: int| 0 <= k < sel.len() && sel[k].user_id@ == x)
}

/// The set of object ids among the listed tuples.
pub open spec fn spec_object_ids_of(sel: Seq<Tuple>) -> Set<Seq<char>> {
    Set::new(|x: Seq<char>| exists|k: int| 0 <= k < sel.len() && sel[k].object_id@ == x)
}

/// Does the executable id list report exactly the specified id set, or the
/// error exactly the specified failure?
pub open spec fn spec_ids_result(
    s: Result<Set<Seq<char>>, SpecExpErr>,
    r: Result<Vec<String>, ExpanderError>,
) -> bool {
    match r {
        Ok(v) => s matches Ok(ss) && spec_id_set(v@) == ss,
        Err(e) => s == Err::<Set<Seq<char>>, SpecExpErr>(e@),
    }
}

/// The subject ids of the listed tuples.
pub(crate) fn user_ids_of(listed: &Vec<Tuple>) -> (r: Vec<String>)
    ensures
        spec_id_set(r@) == spec_user_ids_of(listed@),
{
    let n = listed.len();
    let mut out: Vec<String> = Vec::new();
    let mut i: usize = 0;
    while i < n
        invariant
            n == listed@.len(),
            i <= n,
            out@.len() == i,
            forall|j: int| 0 <= j < i ==> out@[j]@ == (#[trigger] listed@[j]).user_id@,
        decreases n - i,
    {
        out.push(listed[i].user_id.clone());
        i += 1;
    }
    proof {
        assert forall|x: Seq<char>| #[trigger]
            spec_id_set(out@).contains(x) == spec_user_ids_of(listed@).contains(x) by {
            if spec_id_set(out@).contains(x) {
                let j = choose|j: int| 0 <= j < out@.len() && out@[j]@ == x;
                assert(listed@[j].user_id@ == x);
            }
            if spec_user_ids_of(listed@).contains(x) {
                let k = choose|k: int| 0 <= k < listed@.len() && listed@[k].user_id@ == x;
                assert(out@[k]@ == x);
            }
        }
        assert(spec_id_set(out@) =~= spec_user_ids_of(listed@));
    }
    out
}

/// The object ids of the listed tuples.
pub(crate) fn object_ids_of(listed: &Vec<Tuple>) -> (r: Vec<String>)
    ensures
        spec_id_set(r@) == spec_object_ids_of(listed@),
{
    let n = listed.len();
    let mut out: Vec<String> = Vec::new();
    let mut i: usize = 0;
    while i < n
        invariant
            n == listed@.len(),
            i <= n,
            out@.len() == i,
            forall|j: int| 0 <= j < i ==> out@[j]@ == (#[trigger] listed@[j]).object_id@,
        decreases n - i,
    {
        out.push(listed[i].object_id.clone());
        i += 1;
    }
    proof {
        assert forall|x: Seq<char>| #[trigger]
            spec_id_set(out@).contains(x) == spec_object_ids_of(listed@).contains(x) by {
            if spec_id_set(out@).contains(x) {
                let j = choose|j: int| 0 <= j < out@.len() && out@[j]@ == x;
                assert(listed@[j].object_id@ == x);
            }
            if spec_object_ids_of(listed@).contains(x) {
                let k = choose|k: int| 0 <= k < listed@.len() && listed@[k].object_id@ == x;
                assert(out@[k]@ == x);
            }
        }
        assert(spec_id_set(out@) =~= spec_object_ids_of(listed@));
    }
    out
}

/// An empty id list: the empty set of ids.
pub(crate) fn empty_ids() -> (r: Vec<String>)
    ensures
        spec_id_set(r@) == Set::<Seq<char>>::empty(),
{
    let out: Vec<String> = Vec::new();
    proof {
        assert(spec_id_set(out@) =~= Set::<Seq<char>>::empty());
    }
    out
}

/// Does some element of `v` read `x`?
pub(crate) fn contains_id(v: &Vec<String>, x: &String) -> (r: bool)
    ensures
        r == spec_id_set(v@).contains(x@),
{
    let n = v.len();
    let mut i: usize = 0;
    while i < n
        invariant
            n == v@.len(),
            i <= n,
            forall|j: int| 0 <= j < i ==> v@[j]@ != x@,
        decreases n - i,
    {
        if v[i] == *x {
            assert(spec_id_set(v@).contains(x@));
            return true;
        }
        i += 1;
    }
    assert(!spec_id_set(v@).contains(x@));
    false
}

/// Append the ids of `b` to `a`: the union of the two sets.
pub(crate) fn append_ids(a: Vec<String>, b: Vec<String>) -> (r: Vec<String>)
    ensures
        spec_id_set(r@) == spec_id_set(a@).union(spec_id_set(b@)),
{
    let ghost ga = a@;
    let ghost gb = b@;
    let mut out = a;
    let n = b.len();
    let mut i: usize = 0;
    while i < n
        invariant
            gb == b@,
            n == b@.len(),
            i <= n,
            out@ == ga + gb.take(i as int),
        decreases n - i,
    {
        out.push(b[i].clone());
        proof {
            assert(ga + gb.take(i + 1) =~= (ga + gb.take(i as int)).push(gb[i as int]));
        }
        i += 1;
    }
    proof {
        assert(out@ =~= ga + gb);
        assert forall|x: Seq<char>| #[trigger]
            spec_id_set(ga + gb).contains(x) == spec_id_set(ga).union(spec_id_set(gb)).contains(
                x,
            ) by {
            if spec_id_set(ga + gb).contains(x) {
                let j = choose|j: int| 0 <= j < (ga + gb).len() && (ga + gb)[j]@ == x;
                if j < ga.len() {
                    assert(ga[j]@ == x);
                } else {
                    assert(gb[j - ga.len()]@ == x);
                }
            }
            if spec_id_set(ga).contains(x) {
                let j = choose|j: int| 0 <= j < ga.len() && ga[j]@ == x;
                assert((ga + gb)[j]@ == x);
            }
            if spec_id_set(gb).contains(x) {
                let j = choose|j: int| 0 <= j < gb.len() && gb[j]@ == x;
                assert((ga + gb)[ga.len() + j]@ == x);
            }
        }
        assert(spec_id_set(ga + gb) =~= spec_id_set(ga).union(spec_id_set(gb)));
    }
    out
}

/// The ids of `a` that are, or are not, among those of `b`: the
/// intersection, or the difference, of the two sets.
pub(crate) fn sift_ids(a: Vec<String>, b: &Vec<String>, keep: bool) -> (r: Vec<String>)
    ensures
        keep ==> spec_id_set(r@) == spec_id_set(a@).intersect(spec_id_set(b@)),
        !keep ==> spec_id_set(r@) == spec_id_set(a@).difference(spec_id_set(b@)),
{
    let n = a.len();
    let mut out: Vec<String> = Vec::new();
    let mut i: usize = 0;
    while i < n
        invariant
            n == a@.len(),
            i <= n,
            forall|x: Seq<char>| #[trigger]
                spec_id_set(out@).contains(x) == ((exists|k: int| 0 <= k < i && a@[k]@ == x)
                    && spec_id_set(b@).contains(x) == keep),
        decreases n - i,
    {
        let ghost prev = out@;
        if contains_id(b, &a[i]) == keep {
            out.push(a[i].clone());
        }
        proof {
            assert forall|x: Seq<char>| #[trigger]
                spec_id_set(out@).contains(x) == ((exists|k: int| 0 <= k < i + 1 && a@[k]@ == x)
                    && spec_id_set(b@).contains(x) == keep) by {
                if spec_id_set(out@).contains(x) {
                    let j = choose|j: int| 0 <= j < out@.len() && out@[j]@ == x;
                    if j < prev.len() {
                        assert(spec_id_set(prev).contains(x));
                    } else {
                        assert(x == a@[i as int]@);
                    }
                }
                if (exists|k: int| 0 <= k < i + 1 && a@[k]@ == x) && spec_id_set(b@).contains(x)
                    == keep {
                    let k = choose|k: int| 0 <= k < i + 1 && a@[k]@ == x;
                    if k < i {
                        assert(spec_id_set(prev).contains(x));
                        let j = choose|j: int| 0 <= j < prev.len() && prev[j]@ == x;
                        assert(out@[j]@ == x);
                    } else {
                        assert(out@[out@.len() - 1]@ == x);
                    }
                }
            }
        }
        i += 1;
    }
    proof {
        if keep {
            assert(spec_id_set(out@) =~= spec_id_set(a@).intersect(spec_id_set(b@)));
        } else {
            assert(spec_id_set(out@) =~= spec_id_set(a@).difference(spec_id_set(b@)));
        }
    }
    out
}

/// One subject of an expansion tree.
#[derive(Debug)]
pub struct ExpandTreeNode {
    pub user_type: String,
    pub user_id: String,
    pub user_relation: Option<String>,
}

/// The expansion of a userset, mirroring the rewrite tree it came from.
#[derive(Debug)]
pub enum ExpandTree {
    This(Vec<ExpandTreeNode>),
    Computed(ExpandTreeNode),
    TupleTo { tupleset: ExpandTreeNode, computed: Vec<ExpandTreeNode> },
    Union { children: Vec<ExpandTree> },
    Intersection { children: Vec<ExpandTree> },
    Difference { base: Box<ExpandTree>, subtract: Box<ExpandTree> },
}

/// The node a stored tuple's subject expands to.
pub open spec fn spec_node_of(t: Tuple) -> ExpandTreeNode {
    ExpandTreeNode { user_type: t.user_type, user_id: t.user_id, user_relation: t.user_relation }
}

/// Do `nodes` list exactly the subjects of `listed`, in order?
pub open spec fn spec_nodes_match(nodes: Seq<ExpandTreeNode>, listed: Seq<Tuple>) -> bool {
    nodes.len() == listed.len() && forall|i: int|
        0 <= i < nodes.len() ==> nodes[i] == spec_node_of(#[trigger] listed[i])
}

/// The tuples one expansion leaf lists: the object's tuples under `rel`.
pub open spec fn spec_scope_listed(
    rows: Seq<StoredTuple>,
    tenant: Seq<char>,
    rel: Seq<char>,
    object_type: Seq<char>,
    object_id: Seq<char>,
) -> Seq<Tuple> {
    spec_select_leaf(
        rows,
        tenant,
        SpecLeafFilter {
            object_type_eq: Some(object_type),
            object_id_eq: Some(object_id),
            relation_eq: Some(rel),
            user_type_eq: None,
            user_id_eq: None,
            user_id_in: None,
            user_relation_eq: None,
            user_relation_is_null: None,
        },
    )
}

/// Is `t` exactly the expansion of the rewrite `rw` of `relation` on
/// `(object_type, object_id)` against the given rows?
pub open spec fn spec_tree_matches(
    rows: Seq<StoredTuple>,
    tenant: Seq<char>,
    rw: Userset,
    relation: String,
    object_type: String,
    object_id: String,
    t: ExpandTree,
) -> bool
    decreases crate::checker::spec_uheight(rw) + 1, 2int,
{
    match rw {
        Userset::This => t matches ExpandTree::This(nodes) && spec_nodes_match(
            nodes@,
            spec_scope_listed(rows, tenant, relation@, object_type@, object_id@),
        ),
        Userset::Computed(or) => t matches ExpandTree::Computed(node) && node.user_type
            == object_type && node.user_id == object_id && node.user_relation == Some(or.relation),
        Userset::TupleTo(ttu) => t matches ExpandTree::TupleTo { tupleset, computed }
            && tupleset.user_type == object_type && tupleset.user_id == object_id
            && tupleset.user_relation == Some(ttu.tupleset.relation) && spec_nodes_match(
            computed@,
            spec_scope_listed(rows, tenant, ttu.tupleset.relation@, object_type@, object_id@),
        ),
        Userset::Union { children } => t matches ExpandTree::Union { children: tc }
            && spec_tree_list_matches(rows, tenant, children@, relation, object_type, object_id, tc@),
        Userset::Intersection { children } => t matches ExpandTree::Intersection { children: tc }
            && spec_tree_list_matches(rows, tenant, children@, relation, object_type, object_id, tc@),
        Userset::Difference { base, subtract } => t matches ExpandTree::Difference {
            base: tb,
            subtract: tsu,
        } && spec_tree_matches(rows, tenant, *base, relation, object_type, object_id, *tb)
            && spec_tree_matches(rows, tenant, *subtract, relation, object_type, object_id, *tsu),
    }
}

/// Do the trees `ts` expand the rewrites `rws`, pointwise?
pub open spec fn spec_tree_list_matches(
    rows: Seq<StoredTuple>,
    tenant: Seq<char>,
    rws: Seq<Userset>,
    relation: String,
    object_type: String,
    object_id: String,
    ts: Seq<ExpandTree>,
) -> bool
    decreases crate::checker::spec_useq_height(rws) + 1, rws.len() as int,
    via spec_tree_list_matches_decreases
{
    ts.len() == rws.len() && (rws.len() == 0 || (spec_tree_matches(
        rows,
        tenant,
        rws[0],
        relation,
        object_type,
        object_id,
        ts[0],
    ) && spec_tree_list_matches(
        rows,
        tenant,
        rws.drop_first(),
        relation,
        object_type,
        object_id,
        ts.drop_first(),
    )))
}

#[via_fn]
proof fn spec_tree_list_matches_decreases(
    rows: Seq<StoredTuple>,
    tenant: Seq<char>,
    rws: Seq<Userset>,
    relation: String,
    object_type: String,
    object_id: String,
    ts: Seq<ExpandTree>,
) {
    if rws.len() > 0 {
        crate::checker::lemma_useq_height_bound(rws, 0);
        crate::checker::lemma_useq_height_drop(rws);
    }
}

/// The forward expander: it renders the userset of one relation on one
/// object as a tree that mirrors the relation's rewrite.
pub struct Expander {
    pub tuple_reader: MemoryTupleStore,
}

impl Expander {
    /// An expander over the given store.
    pub fn new(tuple_reader: MemoryTupleStore) -> (r: Self)
        ensures
            r.tuple_reader == tuple_reader,
    {
        Expander { tuple_reader }
    }

    /// Expand `(object_type, object_id, relation)`: look the relation up and
    /// render its rewrite, listing direct and tupleset leaves from the store.
    pub fn expand(
        &self,
        typesystem: &Typesystem,
        tenant_id: &String,
        relation: &String,
        object_type: &String,
        object_id: &String,
    ) -> (r: Result<ExpandTree, ExpanderError>)
        ensures
            match r {
                Ok(t) => spec_get_relation(*typesystem, object_type@, relation@) matches Ok(entry)
                    && spec_tree_matches(
                    self.tuple_reader.rows@,
                    tenant_id@,
                    entry.rewrite,
                    *relation,
                    *object_type,
                    *object_id,
                    t,
                ),
                Err(e) => spec_get_relation(*typesystem, object_type@, relation@) matches Err(me)
                    && e@ == spec_model_err_to_exp_err(me),
            },
    {
        match typesystem.get_relation(object_type, relation) {
            Err(e) => Err(model_err_to_expander(e)),
            Ok(entry) => Ok(
                userset_to_tree(
                    &self.tuple_reader,
                    tenant_id,
                    &entry.rewrite,
                    relation,
                    object_type,
                    object_id,
                ),
            ),
        }
    }
}

/// The subjects of the listed tuples, as tree nodes.
fn nodes_of(listed: &Vec<Tuple>) -> (r: Vec<ExpandTreeNode>)
    ensures
        spec_nodes_match(r@, listed@),
{
    let n = listed.len();
    let mut out: Vec<ExpandTreeNode> = Vec::new();
    let mut i: usize = 0;
    while i < n
        invariant
            n == listed@.len(),
            i <= n,
            out@.len() == i,
            forall|j: int| 0 <= j < i ==> out@[j] == spec_node_of(#[trigger] listed@[j]),
        decreases n - i,
    {
        let t = &listed[i];
        out.push(
            ExpandTreeNode {
                user_type: t.user_type.clone(),
                user_id: t.user_id.clone(),
                user_relation: match &t.user_relation {
                    Some(s) => Some(s.clone()),
                    None => None,
                },
            },
        );
        i += 1;
    }
    out
}

/// Render one rewrite node of the expansion.
fn userset_to_tree(
    store: &MemoryTupleStore,
    tenant_id: &String,
    rw: &Userset,
    relation: &String,
    object_type: &String,
    object_id: &String,
) -> (r: ExpandTree)
    ensures
        spec_tree_matches(
            store.rows@,
            tenant_id@,
            *rw,
            *relation,
            *object_type,
            *object_id,
            r,
        ),
    decreases crate::checker::spec_uheight(*rw) + 1, 2int,
{
    match rw {
        Userset::This => {
            let listed = list_leaf(
                store,
                tenant_id,
                Some(object_type.clone()),
                Some(object_id.clone()),
                Some(relation.clone()),
                None,
                None,
                None,
                None,
                None,
            );
            ExpandTree::This(nodes_of(&listed))
        },
        Userset::Computed(or) => ExpandTree::Computed(
            ExpandTreeNode {
                user_type: object_type.clone(),
                user_id: object_id.clone(),
                user_relation: Some(or.relation.clone()),
            },
        ),
        Userset::TupleTo(ttu) => {
            let listed = list_leaf(
                store,
                tenant_id,
                Some(object_type.clone()),
                Some(object_id.clone()),
                Some(ttu.tupleset.relation.clone()),
                None,
                None,
                None,
                None,
                None,
            );
            ExpandTree::TupleTo {
                tupleset: ExpandTreeNode {
                    user_type: object_type.clone(),
                    user_id: object_id.clone(),
                    user_relation: Some(ttu.tupleset.relation.clone()),
                },
                computed: nodes_of(&listed),
            }
        },
        Userset::Union { children } => {
            proof {
                assert(children@.skip(0) =~= children@);
            }
            ExpandTree::Union {
                children: trees_of(store, tenant_id, children, 0, relation, object_type, object_id),
            }
        },
        Userset::Intersection { children } => {
            proof {
                assert(children@.skip(0) =~= children@);
            }
            ExpandTree::Intersection {
                children: trees_of(store, tenant_id, children, 0, relation, object_type, object_id),
            }
        },
        Userset::Difference { base, subtract } => {
            let tb = userset_to_tree(store, tenant_id, base, relation, object_type, object_id);
            let tsu = userset_to_tree(
                store,
                tenant_id,
                subtract,
                relation,
                object_type,
                object_id,
            );
            ExpandTree::Difference { base: Box::new(tb), subtract: Box::new(tsu) }
        },
    }
}

/// Render the child rewrites from `from` on.
fn trees_of(
    store: &MemoryTupleStore,
    tenant_id: &String,
    children: &Vec<Userset>,
    from: usize,
    relation: &String,
    object_type: &String,
    object_id: &String,
) -> (r: Vec<ExpandTree>)
    requires
        from <= children@.len(),
    ensures
        spec_tree_list_matches(
            store.rows@,
            tenant_id@,
            children@.skip(from as int),
            *relation,
            *object_type,
            *object_id,
            r@,
        ),
    decreases crate::checker::spec_useq_height(children@.skip(from as int)) + 1,
        children@.len() - from,
{
    if from == children.len() {
        let out: Vec<ExpandTree> = Vec::new();
        proof {
            assert(children@.skip(from as int) =~= Seq::<Userset>::empty());
        }
        return out;
    }
    proof {
        assert(children@.skip(from as int)[0] == children@[from as int]);
        assert(children@.skip(from as int).drop_first() =~= children@.skip(from as int + 1));
        crate::checker::lemma_useq_height_bound(children@.skip(from as int), 0);
        crate::checker::lemma_useq_height_drop(children@.skip(from as int));
    }
    let head = userset_to_tree(
        store,
        tenant_id,
        &children[from],
        relation,
        object_type,
        object_id,
    );
    let mut rest = trees_of(store, tenant_id, children, from + 1, relation, object_type, object_id);
    let ghost prev = rest@;
    rest.insert(0, head);
    proof {
        assert(rest@[0] == head);
        assert(rest@.drop_first() =~= prev);
    }
    rest
}

} // verus!
