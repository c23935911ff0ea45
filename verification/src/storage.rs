use vstd::prelude::*;

use crate::tuple::Tuple;

verus! {

/// A page request: `page` is 0-based, `size` the page length.
#[derive(Clone, Debug)]
pub struct Pagination {
    pub size: u64,
    pub page: u64,
}

/// Failures of the model and tenant stores.
#[derive(Clone, Debug)]
pub enum StorageError {
    NotFoundAuthzModel,
    NotFoundTenant,
}

/// A conjunction of optional per-field equality constraints on tuples, plus
/// an optional disjunction `or` of sub-filters.  An absent field constrains
/// nothing; an `or` with no sub-filters matches nothing.
#[derive(Debug)]
pub struct TupleFilter {
    pub object_type_eq: Option<String>,
    pub object_id_eq: Option<String>,
    pub object_id_in: Option<Vec<String>>,
    pub relation_eq: Option<String>,
    pub user_type_eq: Option<String>,
    pub user_id_eq: Option<String>,
    pub user_id_in: Option<Vec<String>>,
    pub user_relation_eq: Option<String>,
    pub user_relation_is_null: Option<bool>,
    pub or: Option<Vec<TupleFilter>>,
}

impl TupleFilter {
    /// A filter with no constraints: it matches every tuple.
    pub fn empty() -> (r: TupleFilter)
        ensures
            r.object_type_eq is None,
            r.object_id_eq is None,
            r.object_id_in is None,
            r.relation_eq is None,
            r.user_type_eq is None,
            r.user_id_eq is None,
            r.user_id_in is None,
            r.user_relation_eq is None,
            r.user_relation_is_null is None,
            r.or is None,
    {
        TupleFilter {
            object_type_eq: None,
            object_id_eq: None,
            object_id_in: None,
            relation_eq: None,
            user_type_eq: None,
            user_id_eq: None,
            user_id_in: None,
            user_relation_eq: None,
            user_relation_is_null: None,
            or: None,
        }
    }
}

/// Does some element of `ids` read `x`?
pub open spec fn spec_contains_str(ids: Seq<String>, x: Seq<char>) -> bool {
    exists|i: int| 0 <= i < ids.len() && ids[i]@ == x
}

/// Does the optional constraint `c` accept the field value `v`?
pub open spec fn spec_eq_opt(c: Option<String>, v: Seq<char>) -> bool {
    match c {
        None => true,
        Some(s) => s@ == v,
    }
}

/// Does the optional membership constraint `c` accept the field value `v`?
pub open spec fn spec_in_opt(c: Option<Vec<String>>, v: Seq<char>) -> bool {
    match c {
        None => true,
        Some(ids) => spec_contains_str(ids@, v),
    }
}

/// Does the tuple `t` satisfy every constraint of `f`?
pub open spec fn spec_filter_matches(f: TupleFilter, t: Tuple) -> bool
    decreases f, 1int,
{
    &&& spec_eq_opt(f.object_type_eq, t.object_type@)
    &&& spec_eq_opt(f.object_id_eq, t.object_id@)
    &&& spec_in_opt(f.object_id_in, t.object_id@)
    &&& spec_eq_opt(f.relation_eq, t.relation@)
    &&& spec_eq_opt(f.user_type_eq, t.user_type@)
    &&& spec_eq_opt(f.user_id_eq, t.user_id@)
    &&& spec_in_opt(f.user_id_in, t.user_id@)
    &&& match f.user_relation_eq {
        None => true,
        Some(s) => t.user_relation matches Some(r) && r@ == s@,
    }
    &&& match f.user_relation_is_null {
        None => true,
        Some(b) => b == (t.user_relation is None),
    }
    &&& match f.or {
        None => true,
        Some(subs) => spec_any_filter_matches(subs@, t),
    }
}

/// Does some filter of `subs` match `t`?
pub open spec fn spec_any_filter_matches(subs: Seq<TupleFilter>, t: Tuple) -> bool
    decreases subs, 0int,
{
    if subs.len() == 0 {
        false
    } else {
        spec_filter_matches(subs[0], t) || spec_any_filter_matches(subs.drop_first(), t)
    }
}

impl TupleFilter {
    /// Does this filter match `t`?
    pub fn matches(&self, t: &Tuple) -> (r: bool)
        ensures
            r == spec_filter_matches(*self, *t),
        decreases *self, 1int,
    {
        let conj = (match &self.object_type_eq {
            None => true,
            Some(s) => *s == t.object_type,
        }) && (match &self.object_id_eq {
            None => true,
            Some(s) => *s == t.object_id,
        }) && (match &self.object_id_in {
            None => true,
            Some(ids) => contains_str(ids, &t.object_id),
        }) && (match &self.relation_eq {
            None => true,
            Some(s) => *s == t.relation,
        }) && (match &self.user_type_eq {
            None => true,
            Some(s) => *s == t.user_type,
        }) && (match &self.user_id_eq {
            None => true,
            Some(s) => *s == t.user_id,
        }) && (match &self.user_id_in {
            None => true,
            Some(ids) => contains_str(ids, &t.user_id),
        }) && (match &self.user_relation_eq {
            None => true,
            Some(s) => match &t.user_relation {
                Some(r) => *r == *s,
                None => false,
            },
        }) && (match &self.user_relation_is_null {
            None => true,
            Some(b) => *b == t.user_relation.is_none(),
        });
        if !conj {
            return false;
        }
        match &self.or {
            None => true,
            Some(subs) => any_filter_matches(subs, t),
        }
    }
}

/// Does some filter of `subs` match `t`?
fn any_filter_matches(subs: &Vec<TupleFilter>, t: &Tuple) -> (r: bool)
    ensures
        r == spec_any_filter_matches(subs@, *t),
    decreases subs@, 2int,
{
    let n = subs.len();
    let mut i: usize = 0;
    proof {
        assert(subs@.skip(0) =~= subs@);
    }
    while i < n
        invariant
            n == subs@.len(),
            i <= n,
            spec_any_filter_matches(subs@, *t) == spec_any_filter_matches(subs@.skip(i as int), *t),
        decreases n - i,
    {
        proof {
            assert(subs@.skip(i as int)[0] == subs@[i as int]);
            assert(subs@.skip(i as int).drop_first() =~= subs@.skip(i + 1));
        }
        if subs[i].matches(t) {
            return true;
        }
        i += 1;
    }
    false
}

/// Does some element of `ids` equal `x`?
fn contains_str(ids: &Vec<String>, x: &String) -> (r: bool)
    ensures
        r == spec_contains_str(ids@, x@),
{
    let n = ids.len();
    let mut i: usize = 0;
    while i < n
        invariant
            n == ids@.len(),
            i <= n,
            forall|j: int| 0 <= j < i ==> ids@[j]@ != x@,
        decreases n - i,
    {
        if ids[i] == *x {
            return true;
        }
        i += 1;
    }
    false
}

/// One persisted row: a tuple scoped to a tenant.
#[derive(Debug)]
pub struct StoredTuple {
    pub tenant_id: String,
    pub tuple: Tuple,
}

/// The tuples of `rows` that belong to `tenant` and match `f`, in row order.
pub open spec fn spec_select(rows: Seq<StoredTuple>, tenant: Seq<char>, f: TupleFilter) -> Seq<
    Tuple,
>
    decreases rows.len(),
{
    if rows.len() == 0 {
        Seq::empty()
    } else {
        let rest = spec_select(rows.drop_first(), tenant, f);
        if rows[0].tenant_id@ == tenant && spec_filter_matches(f, rows[0].tuple) {
            seq![rows[0].tuple] + rest
        } else {
            rest
        }
    }
}

/// The tuples of `ts` that match `f`, in order.
pub open spec fn spec_select_tuples(ts: Seq<Tuple>, f: TupleFilter) -> Seq<Tuple>
    decreases ts.len(),
{
    if ts.len() == 0 {
        Seq::empty()
    } else {
        let rest = spec_select_tuples(ts.drop_first(), f);
        if spec_filter_matches(f, ts[0]) {
            seq![ts[0]] + rest
        } else {
            rest
        }
    }
}

/// The rows that survive a delete of everything in `tenant` matching `f`.
pub open spec fn spec_retain(rows: Seq<StoredTuple>, tenant: Seq<char>, f: TupleFilter) -> Seq<
    StoredTuple,
>
    decreases rows.len(),
{
    if rows.len() == 0 {
        Seq::empty()
    } else {
        let rest = spec_retain(rows.drop_first(), tenant, f);
        if rows[0].tenant_id@ == tenant && spec_filter_matches(f, rows[0].tuple) {
            rest
        } else {
            seq![rows[0]] + rest
        }
    }
}

/// An in-memory relationship-tuple store: rows in insertion order, read
/// through filters, written by append, destroyed only by explicit delete.
#[derive(Debug)]
pub struct MemoryTupleStore {
    pub rows: Vec<StoredTuple>,
}

impl MemoryTupleStore {
    /// An empty store.
    pub fn new() -> (r: MemoryTupleStore)
        ensures
            r.rows@.len() == 0,
    {
        MemoryTupleStore { rows: Vec::new() }
    }

    /// List the tuples of `tenant_id` matching `filter`, in insertion order.
    pub fn list(&self, tenant_id: &String, filter: &TupleFilter) -> (r: Vec<Tuple>)
        ensures
            r@ == spec_select(self.rows@, tenant_id@, *filter),
    {
        let n = self.rows.len();
        let mut out: Vec<Tuple> = Vec::new();
        let mut i: usize = 0;
        proof {
            assert(self.rows@.skip(0) =~= self.rows@);
        }
        while i < n
            invariant
                n == self.rows@.len(),
                i <= n,
                out@ + spec_select(self.rows@.skip(i as int), tenant_id@, *filter) == spec_select(
                    self.rows@,
                    tenant_id@,
                    *filter,
                ),
            decreases n - i,
        {
            proof {
                assert(self.rows@.skip(i as int)[0] == self.rows@[i as int]);
                assert(self.rows@.skip(i as int).drop_first() =~= self.rows@.skip(i + 1));
            }
            let row = &self.rows[i];
            if row.tenant_id == *tenant_id && filter.matches(&row.tuple) {
                out.push(row.tuple.clone());
                proof {
                    assert(out@ + spec_select(self.rows@.skip(i + 1), tenant_id@, *filter)
                        =~= out@.drop_last() + spec_select(
                        self.rows@.skip(i as int),
                        tenant_id@,
                        *filter,
                    ));
                }
            }
            i += 1;
        }
        proof {
            assert(self.rows@.skip(n as int) =~= Seq::<StoredTuple>::empty());
            assert(out@ =~= out@ + spec_select(self.rows@.skip(n as int), tenant_id@, *filter));
        }
        out
    }

    /// Append `tuples` for `tenant_id`; nothing else changes.
    pub fn save(&mut self, tenant_id: &String, tuples: Vec<Tuple>)
        ensures
            final(self).rows@ == old(self).rows@ + Seq::new(
                tuples@.len(),
                |i: int|
                    StoredTuple {
                        tenant_id: *tenant_id,
                        tuple: tuples@[i],
                    },
            ),
    {
        let n = tuples.len();
        let ghost added = Seq::new(
            tuples@.len(),
            |i: int| StoredTuple { tenant_id: *tenant_id, tuple: tuples@[i] },
        );
        let mut i: usize = 0;
        while i < n
            invariant
                n == tuples@.len(),
                i <= n,
                added == Seq::new(
                    tuples@.len(),
                    |j: int| StoredTuple { tenant_id: *tenant_id, tuple: tuples@[j] },
                ),
                self.rows@ == old(self).rows@ + added.take(i as int),
            decreases n - i,
        {
            self.rows.push(StoredTuple { tenant_id: tenant_id.clone(), tuple: tuples[i].clone() });
            proof {
                assert(old(self).rows@ + added.take(i + 1) =~= old(self).rows@ + added.take(
                    i as int,
                ) + seq![added[i as int]]);
            }
            i += 1;
        }
        proof {
            assert(added.take(n as int) =~= added);
        }
    }

    /// Delete every tuple of `tenant_id` matching `filter`.
    pub fn delete(&mut self, tenant_id: &String, filter: &TupleFilter)
        ensures
            final(self).rows@ == spec_retain(old(self).rows@, tenant_id@, *filter),
    {
        let n = self.rows.len();
        let mut out: Vec<StoredTuple> = Vec::new();
        let mut i: usize = 0;
        proof {
            assert(self.rows@.skip(0) =~= self.rows@);
        }
        while i < n
            invariant
                n == self.rows@.len(),
                self.rows@ == old(self).rows@,
                i <= n,
                out@ + spec_retain(self.rows@.skip(i as int), tenant_id@, *filter) == spec_retain(
                    self.rows@,
                    tenant_id@,
                    *filter,
                ),
            decreases n - i,
        {
            proof {
                assert(self.rows@.skip(i as int)[0] == self.rows@[i as int]);
                assert(self.rows@.skip(i as int).drop_first() =~= self.rows@.skip(i + 1));
            }
            let row = &self.rows[i];
            if !(row.tenant_id == *tenant_id && filter.matches(&row.tuple)) {
                out.push(
                    StoredTuple { tenant_id: row.tenant_id.clone(), tuple: row.tuple.clone() },
                );
                proof {
                    assert(out@ + spec_retain(self.rows@.skip(i + 1), tenant_id@, *filter)
                        =~= out@.drop_last() + spec_retain(
                        self.rows@.skip(i as int),
                        tenant_id@,
                        *filter,
                    ));
                }
            }
            i += 1;
        }
        proof {
            assert(self.rows@.skip(n as int) =~= Seq::<StoredTuple>::empty());
            assert(out@ =~= out@ + spec_retain(self.rows@.skip(n as int), tenant_id@, *filter));
        }
        self.rows = out;
    }
}

/// One stored authorization model: a compiled typesystem under a version
/// id, scoped to a tenant.
#[derive(Debug)]
pub struct ModelRow {
    pub tenant_id: String,
    pub model_id: String,
    pub model: crate::model::Typesystem,
}

/// An in-memory model store: compiled models in insertion order, the
/// newest last.
#[derive(Debug)]
pub struct MemoryModelStore {
    pub rows: Vec<ModelRow>,
}

impl MemoryModelStore {
    /// An empty model store.
    pub fn new() -> (r: MemoryModelStore)
        ensures
            r.rows@.len() == 0,
    {
        MemoryModelStore { rows: Vec::new() }
    }

    /// Publish a model version for a tenant; it becomes the latest.
    pub fn save(&mut self, row: ModelRow)
        ensures
            final(self).rows@ == old(self).rows@.push(row),
    {
        self.rows.push(row);
    }

    /// The latest model of `tenant_id`: the last stored row of that tenant,
    /// or a not-found failure when it stored none.
    pub fn get_latest(&self, tenant_id: &String) -> (r: Result<&ModelRow, StorageError>)
        ensures
            match r {
                Ok(row) => exists|i: int|
                    0 <= i < self.rows@.len() && #[trigger] self.rows@[i] == *row
                        && self.rows@[i].tenant_id@ == tenant_id@ && (forall|j: int|
                        i < j < self.rows@.len() ==> (#[trigger] self.rows@[j]).tenant_id@
                            != tenant_id@),
                Err(e) => e is NotFoundAuthzModel && forall|i: int|
                    0 <= i < self.rows@.len() ==> (#[trigger] self.rows@[i]).tenant_id@
                        != tenant_id@,
            },
    {
        let n = self.rows.len();
        let mut i: usize = n;
        while i > 0
            invariant
                i <= n,
                n == self.rows@.len(),
                forall|j: int|
                    i <= j < n ==> (#[trigger] self.rows@[j]).tenant_id@ != tenant_id@,
            decreases i,
        {
            i -= 1;
            if self.rows[i].tenant_id == *tenant_id {
                return Ok(&self.rows[i]);
            }
        }
        Err(StorageError::NotFoundAuthzModel)
    }

    /// Every stored model row, oldest first.
    pub fn list(&self) -> (r: &Vec<ModelRow>)
        ensures
            r == &self.rows,
    {
        &self.rows
    }

    /// The model `tenant_id` stored under `model_id`, or a not-found
    /// failure.
    pub fn get(&self, tenant_id: &String, model_id: &String) -> (r: Result<
        &ModelRow,
        StorageError,
    >)
        ensures
            match r {
                Ok(row) => exists|i: int|
                    0 <= i < self.rows@.len() && #[trigger] self.rows@[i] == *row
                        && self.rows@[i].tenant_id@ == tenant_id@ && self.rows@[i].model_id@
                        == model_id@,
                Err(e) => e is NotFoundAuthzModel && forall|i: int|
                    0 <= i < self.rows@.len() ==> !((#[trigger] self.rows@[i]).tenant_id@
                        == tenant_id@ && self.rows@[i].model_id@ == model_id@),
            },
    {
        let n = self.rows.len();
        let mut i: usize = 0;
        while i < n
            invariant
                i <= n,
                n == self.rows@.len(),
                forall|j: int|
                    0 <= j < i ==> !((#[trigger] self.rows@[j]).tenant_id@ == tenant_id@
                        && self.rows@[j].model_id@ == model_id@),
            decreases n - i,
        {
            if self.rows[i].tenant_id == *tenant_id && self.rows[i].model_id == *model_id {
                return Ok(&self.rows[i]);
            }
            i += 1;
        }
        Err(StorageError::NotFoundAuthzModel)
    }
}

/// An in-memory tenant registry.
#[derive(Debug)]
pub struct MemoryTenantStore {
    pub tenants: Vec<crate::model::Tenant>,
}

impl MemoryTenantStore {
    /// An empty registry.
    pub fn new() -> (r: MemoryTenantStore)
        ensures
            r.tenants@.len() == 0,
    {
        MemoryTenantStore { tenants: Vec::new() }
    }

    /// Register a tenant.
    pub fn create(&mut self, tenant: crate::model::Tenant)
        ensures
            final(self).tenants@ == old(self).tenants@.push(tenant),
    {
        self.tenants.push(tenant);
    }

    /// The registered tenant with id `tenant_id`, or a not-found failure.
    pub fn get(&self, tenant_id: &String) -> (r: Result<&crate::model::Tenant, StorageError>)
        ensures
            match r {
                Ok(t) => exists|i: int|
                    0 <= i < self.tenants@.len() && #[trigger] self.tenants@[i] == *t
                        && self.tenants@[i].id@ == tenant_id@,
                Err(e) => e is NotFoundTenant && forall|i: int|
                    0 <= i < self.tenants@.len() ==> (#[trigger] self.tenants@[i]).id@
                        != tenant_id@,
            },
    {
        let n = self.tenants.len();
        let mut i: usize = 0;
        while i < n
            invariant
                i <= n,
                n == self.tenants@.len(),
                forall|j: int| 0 <= j < i ==> (#[trigger] self.tenants@[j]).id@ != tenant_id@,
            decreases n - i,
        {
            if self.tenants[i].id == *tenant_id {
                return Ok(&self.tenants[i]);
            }
            i += 1;
        }
        Err(StorageError::NotFoundTenant)
    }

    /// Every registered tenant, oldest first.
    pub fn list(&self) -> (r: &Vec<crate::model::Tenant>)
        ensures
            r == &self.tenants,
    {
        &self.tenants
    }

    /// Remove every registration of `tenant_id`.
    pub fn delete(&mut self, tenant_id: &String)
        ensures
            final(self).tenants@ == spec_retain_tenants(old(self).tenants@, tenant_id@),
    {
        let ghost all = self.tenants@;
        let n = self.tenants.len();
        let mut out: Vec<crate::model::Tenant> = Vec::new();
        let mut i: usize = 0;
        proof {
            assert(all.skip(0) =~= all);
        }
        while i < n
            invariant
                n == self.tenants@.len(),
                self.tenants@ == all,
                i <= n,
                out@ + spec_retain_tenants(all.skip(i as int), tenant_id@) == spec_retain_tenants(
                    all,
                    tenant_id@,
                ),
            decreases n - i,
        {
            proof {
                assert(all.skip(i as int)[0] == all[i as int]);
                assert(all.skip(i as int).drop_first() =~= all.skip(i + 1));
            }
            if !(self.tenants[i].id == *tenant_id) {
                out.push(
                    crate::model::Tenant {
                        id: self.tenants[i].id.clone(),
                        name: self.tenants[i].name.clone(),
                    },
                );
                proof {
                    assert(out@ + spec_retain_tenants(all.skip(i + 1), tenant_id@)
                        =~= out@.drop_last() + spec_retain_tenants(all.skip(i as int), tenant_id@));
                }
            }
            i += 1;
        }
        proof {
            assert(all.skip(n as int) =~= Seq::<crate::model::Tenant>::empty());
            assert(out@ =~= out@ + spec_retain_tenants(all.skip(n as int), tenant_id@));
        }
        self.tenants = out;
    }
}

/// The registrations that survive deleting `tenant`.
pub open spec fn spec_retain_tenants(
    ts: Seq<crate::model::Tenant>,
    tenant: Seq<char>,
) -> Seq<crate::model::Tenant>
    decreases ts.len(),
{
    if ts.len() == 0 {
        Seq::empty()
    } else {
        let rest = spec_retain_tenants(ts.drop_first(), tenant);
        if ts[0].id@ == tenant {
            rest
        } else {
            seq![ts[0]] + rest
        }
    }
}

} // verus!
