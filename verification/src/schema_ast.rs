use vstd::prelude::*;

use crate::model::ObjectRelation;
use crate::model::TupleToUserset;
use crate::model::Userset;

verus! {

/// One subject shape a relation admits: a bare type, or a `type#relation`
/// pair (with `*` in relation position for the wildcard shape).
#[derive(Debug, PartialEq)]
pub enum RelationshipSet {
    Single(String),
    SetRef(String, String),
}

/// How a permission is composed from relations: a leaf, or a set operation
/// over sub-expressions.
#[derive(Debug, PartialEq)]
pub enum Relationship {
    SetExpr(RelationshipSet),
    Union { children: Vec<Box<Relationship>> },
    Intersection { children: Vec<Box<Relationship>> },
    Difference { base: Box<Relationship>, subtract: Box<Relationship> },
}

/// The mathematical image of a `RelationshipSet`.
pub enum RelSetV {
    Single(Seq<char>),
    SetRef(Seq<char>, Seq<char>),
}

/// The mathematical image of a `Relationship`.
pub enum RelV {
    SetExpr(RelSetV),
    Union(Seq<RelV>),
    Intersection(Seq<RelV>),
    Difference(Box<RelV>, Box<RelV>),
}

/// The image of one subject shape.
pub open spec fn rel_set_view(s: RelationshipSet) -> RelSetV {
    match s {
        RelationshipSet::Single(t) => RelSetV::Single(t@),
        RelationshipSet::SetRef(t, r) => RelSetV::SetRef(t@, r@),
    }
}

/// The image of a permission expression.
pub open spec fn rel_view(r: Relationship) -> RelV
    decreases r,
{
    match r {
        Relationship::SetExpr(s) => RelV::SetExpr(rel_set_view(s)),
        Relationship::Union { children } => RelV::Union(rel_views(children@)),
        Relationship::Intersection { children } => RelV::Intersection(rel_views(children@)),
        Relationship::Difference { base, subtract } => RelV::Difference(
            Box::new(rel_view(*base)),
            Box::new(rel_view(*subtract)),
        ),
    }
}

/// The images of a list of permission expressions.
pub open spec fn rel_views(s: Seq<Box<Relationship>>) -> Seq<RelV>
    decreases s,
{
    if s.len() == 0 {
        Seq::empty()
    } else {
        seq![rel_view(*s[0])] + rel_views(s.drop_first())
    }
}

/// The height of a permission-expression image, a termination measure.
pub open spec fn relv_height(v: RelV) -> nat
    decreases v,
{
    match v {
        RelV::SetExpr(_) => 0,
        RelV::Union(cs) => relv_seq_height(cs) + 1,
        RelV::Intersection(cs) => relv_seq_height(cs) + 1,
        RelV::Difference(b, s) => if relv_height(*b) >= relv_height(*s) {
            relv_height(*b) + 1
        } else {
            relv_height(*s) + 1
        },
    }
}

/// A strict upper bound on the heights of the images in `s`.
pub open spec fn relv_seq_height(s: Seq<RelV>) -> nat
    decreases s,
{
    if s.len() == 0 {
        0
    } else {
        let h0 = relv_height(s[0]) + 1;
        let hr = relv_seq_height(s.drop_first());
        if h0 >= hr {
            h0
        } else {
            hr
        }
    }
}

/// Every element of `s` sits strictly below `relv_seq_height(s)`.
pub proof fn lemma_relv_seq_height_bound(s: Seq<RelV>, i: int)
    requires
        0 <= i < s.len(),
    ensures
        relv_height(s[i]) < relv_seq_height(s),
    decreases s.len(),
{
    if i > 0 {
        lemma_relv_seq_height_bound(s.drop_first(), i - 1);
        assert(s.drop_first()[i - 1] == s[i]);
    }
}

/// Dropping elements never raises the height bound.
pub proof fn lemma_relv_seq_height_drop(s: Seq<RelV>)
    requires
        s.len() > 0,
    ensures
        relv_seq_height(s.drop_first()) <= relv_seq_height(s),
{
}

/// The normal form of a permission expression: nested unions are spliced
/// into their parent union, nested intersections into their parent
/// intersection, and a set operation left with one child collapses to it.
pub open spec fn spec_compute(v: RelV) -> RelV
    decreases relv_height(v) + 1, 2int,
{
    match v {
        RelV::SetExpr(_) => v,
        RelV::Union(cs) => {
            let flat = spec_flatten_union(cs);
            if flat.len() == 1 {
                flat[0]
            } else {
                RelV::Union(flat)
            }
        },
        RelV::Intersection(cs) => {
            let flat = spec_flatten_intersection(cs);
            if flat.len() == 1 {
                flat[0]
            } else {
                RelV::Intersection(flat)
            }
        },
        RelV::Difference(b, s) => RelV::Difference(
            Box::new(spec_compute(*b)),
            Box::new(spec_compute(*s)),
        ),
    }
}

/// Normalize each child of a union and splice child unions in.
pub open spec fn spec_flatten_union(cs: Seq<RelV>) -> Seq<RelV>
    decreases relv_seq_height(cs) + 1, cs.len() as int,
    via spec_flatten_union_decreases
{
    if cs.len() == 0 {
        Seq::empty()
    } else {
        let h = spec_compute(cs[0]);
        let hs = match h {
            RelV::Union(gc) => gc,
            _ => seq![h],
        };
        hs + spec_flatten_union(cs.drop_first())
    }
}

#[via_fn]
proof fn spec_flatten_union_decreases(cs: Seq<RelV>) {
    if cs.len() > 0 {
        lemma_relv_seq_height_bound(cs, 0);
        lemma_relv_seq_height_drop(cs);
    }
}

/// Normalize each child of an intersection and splice child intersections
/// in.
pub open spec fn spec_flatten_intersection(cs: Seq<RelV>) -> Seq<RelV>
    decreases relv_seq_height(cs) + 1, cs.len() as int,
    via spec_flatten_intersection_decreases
{
    if cs.len() == 0 {
        Seq::empty()
    } else {
        let h = spec_compute(cs[0]);
        let hs = match h {
            RelV::Intersection(gc) => gc,
            _ => seq![h],
        };
        hs + spec_flatten_intersection(cs.drop_first())
    }
}

#[via_fn]
proof fn spec_flatten_intersection_decreases(cs: Seq<RelV>) {
    if cs.len() > 0 {
        lemma_relv_seq_height_bound(cs, 0);
        lemma_relv_seq_height_drop(cs);
    }
}

impl Relationship {
    /// Normalize this expression: splice nested unions and intersections
    /// into their parents and collapse singleton set operations.
    pub fn compute(self) -> (r: Relationship)
        ensures
            rel_view(r) == spec_compute(rel_view(self)),
        decreases relv_height(rel_view(self)) + 1, 2int,
    {
        match self {
            Relationship::SetExpr(_) => {
                proof {
                    assert(spec_compute(rel_view(self)) == rel_view(self));
                }
                self
            },
            Relationship::Union { children } => {
                proof {
                    assert(rel_view(self) == RelV::Union(rel_views(children@)));
                }
                let mut flat = flatten_union(children);
                proof {
                    lemma_rel_views_len(flat@);
                }
                if flat.len() == 1 {
                    let ghost pre = flat@;
                    let b = flat.pop().unwrap();
                    proof {
                        assert(b == pre[0]);
                        assert(rel_views(pre)[0] == rel_view(*pre[0]));
                    }
                    *b
                } else {
                    Relationship::Union { children: flat }
                }
            },
            Relationship::Intersection { children } => {
                proof {
                    assert(rel_view(self) == RelV::Intersection(rel_views(children@)));
                }
                let mut flat = flatten_intersection(children);
                proof {
                    lemma_rel_views_len(flat@);
                }
                if flat.len() == 1 {
                    let ghost pre = flat@;
                    let b = flat.pop().unwrap();
                    proof {
                        assert(b == pre[0]);
                        assert(rel_views(pre)[0] == rel_view(*pre[0]));
                    }
                    *b
                } else {
                    Relationship::Intersection { children: flat }
                }
            },
            Relationship::Difference { base, subtract } => {
                let b = (*base).compute();
                let s = (*subtract).compute();
                Relationship::Difference { base: Box::new(b), subtract: Box::new(s) }
            },
        }
    }
}

/// A list of expressions renders to as many images.
pub proof fn lemma_rel_views_len(s: Seq<Box<Relationship>>)
    ensures
        rel_views(s).len() == s.len(),
    decreases s.len(),
{
    if s.len() > 0 {
        lemma_rel_views_len(s.drop_first());
    }
}

/// Rendering a singleton list of expressions.
proof fn lemma_rel_views_singleton(b: Box<Relationship>)
    ensures
        rel_views(seq![b]) == seq![rel_view(*b)],
{
    let s = seq![b];
    assert(s.len() == 1);
    assert(s[0] == b);
    assert(s.drop_first() =~= Seq::<Box<Relationship>>::empty());
    assert(rel_views(s.drop_first()) =~= Seq::<RelV>::empty());
    assert(rel_views(s) =~= seq![rel_view(*b)]);
}

/// Concatenating expression lists renders to concatenated images.
proof fn lemma_rel_views_concat(a: Seq<Box<Relationship>>, b: Seq<Box<Relationship>>)
    ensures
        rel_views(a + b) == rel_views(a) + rel_views(b),
    decreases a.len(),
{
    if a.len() == 0 {
        assert(a + b =~= b);
        assert(rel_views(a) =~= Seq::<RelV>::empty());
        assert(rel_views(a) + rel_views(b) =~= rel_views(b));
    } else {
        assert((a + b)[0] == a[0]);
        assert((a + b).drop_first() =~= a.drop_first() + b);
        lemma_rel_views_concat(a.drop_first(), b);
        assert(rel_views(a + b) =~= rel_views(a) + rel_views(b));
    }
}

/// Normalize the children of a union, splicing child unions in.
fn flatten_union(children: Vec<Box<Relationship>>) -> (r: Vec<Box<Relationship>>)
    ensures
        rel_views(r@) == spec_flatten_union(rel_views(children@)),
    decreases relv_seq_height(rel_views(children@)) + 1, children@.len() as int,
{
    let mut rest = children;
    if rest.len() == 0 {
        proof {
            assert(rel_views(rest@) =~= Seq::<RelV>::empty());
            assert(spec_flatten_union(rel_views(rest@)) =~= Seq::<RelV>::empty());
        }
        return rest;
    }
    let ghost cs = rel_views(rest@);
    let head = rest.remove(0);
    proof {
        assert(cs[0] == rel_view(*head));
        assert(cs.drop_first() =~= rel_views(rest@));
        lemma_relv_seq_height_bound(cs, 0);
        lemma_relv_seq_height_drop(cs);
    }
    let computed = (*head).compute();
    let ghost h = spec_compute(cs[0]);
    let mut out: Vec<Box<Relationship>> = Vec::new();
    match computed {
        Relationship::Union { children: gc } => {
            proof {
                assert(h == RelV::Union(rel_views(gc@)));
            }
            out = gc;
        },
        c => {
            proof {
                assert(!(c is Union));
                assert(!(rel_view(c) is Union));
            }
            let ghost cv = rel_view(c);
            out.push(Box::new(c));
            proof {
                lemma_rel_views_singleton(out@[0]);
                assert(out@ =~= seq![out@[0]]);
                assert(rel_views(out@) == seq![cv]);
            }
        },
    }
    let mut tail = flatten_union(rest);
    let ghost out_pre = out@;
    let ghost tail_pre = tail@;
    let mut out2 = out;
    out2.append(&mut tail);
    proof {
        lemma_rel_views_concat(out_pre, tail_pre);
    }
    out2
}

/// Normalize the children of an intersection, splicing child intersections
/// in.
fn flatten_intersection(children: Vec<Box<Relationship>>) -> (r: Vec<Box<Relationship>>)
    ensures
        rel_views(r@) == spec_flatten_intersection(rel_views(children@)),
    decreases relv_seq_height(rel_views(children@)) + 1, children@.len() as int,
{
    let mut rest = children;
    if rest.len() == 0 {
        proof {
            assert(rel_views(rest@) =~= Seq::<RelV>::empty());
            assert(spec_flatten_intersection(rel_views(rest@)) =~= Seq::<RelV>::empty());
        }
        return rest;
    }
    let ghost cs = rel_views(rest@);
    let head = rest.remove(0);
    proof {
        assert(cs[0] == rel_view(*head));
        assert(cs.drop_first() =~= rel_views(rest@));
        lemma_relv_seq_height_bound(cs, 0);
        lemma_relv_seq_height_drop(cs);
    }
    let computed = (*head).compute();
    let ghost h = spec_compute(cs[0]);
    let mut out: Vec<Box<Relationship>> = Vec::new();
    match computed {
        Relationship::Intersection { children: gc } => {
            proof {
                assert(h == RelV::Intersection(rel_views(gc@)));
            }
            out = gc;
        },
        c => {
            proof {
                assert(!(c is Intersection));
                assert(!(rel_view(c) is Intersection));
            }
            let ghost cv = rel_view(c);
            out.push(Box::new(c));
            proof {
                lemma_rel_views_singleton(out@[0]);
                assert(out@ =~= seq![out@[0]]);
                assert(rel_views(out@) == seq![cv]);
            }
        },
    }
    let mut tail = flatten_intersection(rest);
    let ghost out_pre = out@;
    let ghost tail_pre = tail@;
    let mut out2 = out;
    out2.append(&mut tail);
    proof {
        lemma_rel_views_concat(out_pre, tail_pre);
    }
    out2
}

impl Relationship {
    /// An exact copy of this expression.
    pub fn clone_rel(&self) -> (r: Relationship)
        ensures
            rel_view(r) == rel_view(*self),
        decreases relv_height(rel_view(*self)) + 1, 2int,
    {
        match self {
            Relationship::SetExpr(s) => Relationship::SetExpr(
                match s {
                    RelationshipSet::Single(t) => RelationshipSet::Single(t.clone()),
                    RelationshipSet::SetRef(t, r2) => RelationshipSet::SetRef(
                        t.clone(),
                        r2.clone(),
                    ),
                },
            ),
            Relationship::Union { children } => {
                proof {
                    assert(children@.skip(0) =~= children@);
                }
                Relationship::Union { children: clone_children(children, 0) }
            },
            Relationship::Intersection { children } => {
                proof {
                    assert(children@.skip(0) =~= children@);
                }
                Relationship::Intersection { children: clone_children(children, 0) }
            },
            Relationship::Difference { base, subtract } => Relationship::Difference {
                base: Box::new(base.clone_rel()),
                subtract: Box::new(subtract.clone_rel()),
            },
        }
    }
}

/// Copies of the expressions from `from` on.
fn clone_children(children: &Vec<Box<Relationship>>, from: usize) -> (r: Vec<Box<Relationship>>)
    requires
        from <= children@.len(),
    ensures
        rel_views(r@) == rel_views(children@.skip(from as int)),
    decreases relv_seq_height(rel_views(children@.skip(from as int))) + 1, children@.len() - from,
{
    if from == children.len() {
        let out: Vec<Box<Relationship>> = Vec::new();
        proof {
            assert(children@.skip(from as int) =~= Seq::<Box<Relationship>>::empty());
            assert(rel_views(out@) =~= Seq::<RelV>::empty());
            assert(rel_views(children@.skip(from as int)) =~= Seq::<RelV>::empty());
        }
        return out;
    }
    let ghost cs = rel_views(children@.skip(from as int));
    proof {
        assert(children@.skip(from as int)[0] == children@[from as int]);
        assert(children@.skip(from as int).drop_first() =~= children@.skip(from as int + 1));
        lemma_relv_seq_height_bound(cs, 0);
        lemma_relv_seq_height_drop(cs);
        assert(cs.drop_first() == rel_views(children@.skip(from as int + 1)));
    }
    let head = Box::new(children[from].clone_rel());
    let rest = clone_children(children, from + 1);
    let ghost restv = rest@;
    let mut out = rest;
    out.insert(0, head);
    proof {
        assert(out@[0] == head);
        assert(out@.drop_first() =~= restv);
        assert(rel_views(out@) =~= seq![rel_view(*head)] + rel_views(restv));
    }
    out
}

/// Is `u` exactly the compiled form of the permission expression `r`?  A
/// leaf names a computed userset; a `type#relation` leaf names a
/// tuple-to-userset; set operations compile child by child.
pub open spec fn spec_to_userset_matches(r: Relationship, u: Userset) -> bool
    decreases r,
{
    match r {
        Relationship::SetExpr(s) => match s {
            RelationshipSet::Single(rel) => u matches Userset::Computed(or) && or.object@.len()
                == 0 && or.relation@ == rel@,
            RelationshipSet::SetRef(rel, obj) => u matches Userset::TupleTo(ttu)
                && ttu.tupleset.object@.len() == 0 && ttu.tupleset.relation@ == obj@
                && ttu.computed_userset.object@.len() == 0 && ttu.computed_userset.relation@
                == rel@,
        },
        Relationship::Union { children } => u matches Userset::Union { children: uc }
            && spec_to_userset_list(children@, uc@),
        Relationship::Intersection { children } => u matches Userset::Intersection {
            children: uc,
        } && spec_to_userset_list(children@, uc@),
        Relationship::Difference { base, subtract } => u matches Userset::Difference {
            base: ub,
            subtract: us,
        } && spec_to_userset_matches(*base, *ub) && spec_to_userset_matches(*subtract, *us),
    }
}

/// Are `us` exactly the compiled forms of `rs`, pointwise?
pub open spec fn spec_to_userset_list(rs: Seq<Box<Relationship>>, us: Seq<Userset>) -> bool
    decreases rs,
{
    us.len() == rs.len() && (rs.len() == 0 || (spec_to_userset_matches(*rs[0], us[0])
        && spec_to_userset_list(rs.drop_first(), us.drop_first())))
}

impl Relationship {
    /// Compile this permission expression into the rewrite it stands for.
    pub fn to_userset(&self) -> (u: Userset)
        ensures
            spec_to_userset_matches(*self, u),
        decreases *self,
    {
        match self {
            Relationship::SetExpr(s) => match s {
                RelationshipSet::Single(rel) => Userset::Computed(
                    ObjectRelation { object: String::new(), relation: rel.clone() },
                ),
                RelationshipSet::SetRef(rel, obj) => Userset::TupleTo(
                    TupleToUserset {
                        tupleset: ObjectRelation { object: String::new(), relation: obj.clone() },
                        computed_userset: ObjectRelation {
                            object: String::new(),
                            relation: rel.clone(),
                        },
                    },
                ),
            },
            Relationship::Union { children } => {
                proof {
                    assert(children@.skip(0) =~= children@);
                }
                Userset::Union { children: to_userset_list(children, 0) }
            },
            Relationship::Intersection { children } => {
                proof {
                    assert(children@.skip(0) =~= children@);
                }
                Userset::Intersection { children: to_userset_list(children, 0) }
            },
            Relationship::Difference { base, subtract } => Userset::Difference {
                base: Box::new(base.to_userset()),
                subtract: Box::new(subtract.to_userset()),
            },
        }
    }
}

/// Compile the expressions from `from` on.
fn to_userset_list(children: &Vec<Box<Relationship>>, from: usize) -> (r: Vec<Userset>)
    requires
        from <= children@.len(),
    ensures
        spec_to_userset_list(children@.skip(from as int), r@),
    decreases children@.skip(from as int),
{
    if from == children.len() {
        let out: Vec<Userset> = Vec::new();
        proof {
            assert(children@.skip(from as int) =~= Seq::<Box<Relationship>>::empty());
        }
        return out;
    }
    proof {
        assert(children@.skip(from as int)[0] == children@[from as int]);
        assert(children@.skip(from as int).drop_first() =~= children@.skip(from as int + 1));
    }
    let head = children[from].to_userset();
    let rest = to_userset_list(children, from + 1);
    let ghost restv = rest@;
    let mut out = rest;
    out.insert(0, head);
    proof {
        assert(out@[0] == head);
        assert(out@.drop_first() =~= restv);
    }
    out
}

/// A named permission and the expression that grants it.
#[derive(Debug, PartialEq)]
pub struct Permission {
    pub name: String,
    pub permission: Relationship,
}

/// A declared relation and the subject shapes it admits.
#[derive(Debug, PartialEq)]
pub struct Relation {
    pub name: String,
    pub subjects: Vec<RelationshipSet>,
}

/// One body item of a type declaration.
#[derive(Debug, PartialEq)]
pub enum RelationOrPermission {
    Relation(Relation),
    Permission(Permission),
}

/// A declared object type: its relations and its permissions.
#[derive(Debug, PartialEq)]
pub struct Type {
    pub name: String,
    pub relations: Vec<Relation>,
    pub permissions: Vec<Permission>,
}

/// The argument of a condition declaration.
#[derive(Debug, PartialEq)]
pub struct ConditionArg {
    pub name: String,
    pub typ: ConditionType,
}

/// The type of a condition argument.
#[derive(Debug, PartialEq)]
pub enum ConditionType {
    Int,
    Uint,
    Double,
    Bool,
    Bytes,
    Str,
    Duration,
    Timestamp,
    Any,
    ListOf(Box<ConditionType>),
    MapOf(Box<ConditionType>),
    IPaddress,
}

/// A named condition declaration and its arguments.
#[derive(Debug, PartialEq)]
pub struct Condition {
    pub name: String,
    pub args: Vec<ConditionArg>,
}

/// One top-level unit of a schema.
#[derive(Debug, PartialEq)]
pub enum SchemaUnit {
    Type(Type),
    Condition(Condition),
}

/// A parsed authorization schema: its types and its conditions.
#[derive(Debug, PartialEq)]
pub struct Schema {
    pub types: Vec<Type>,
    pub conditions: Vec<Condition>,
}

impl Type {
    /// Gather a type's body items into its relations and permissions,
    /// keeping each list in source order.
    pub fn new(name: String, rops: Vec<RelationOrPermission>) -> (r: Self)
        ensures
            r.name == name,
            r.relations@ == spec_rops_relations(rops@),
            r.permissions@ == spec_rops_permissions(rops@),
    {
        let ghost all = rops@;
        let mut rest = rops;
        let mut relations: Vec<Relation> = Vec::new();
        let mut permissions: Vec<Permission> = Vec::new();
        while rest.len() > 0
            invariant
                relations@ + spec_rops_relations(rest@) == spec_rops_relations(all),
                permissions@ + spec_rops_permissions(rest@) == spec_rops_permissions(all),
            decreases rest@.len(),
        {
            let ghost pre = rest@;
            let item = rest.remove(0);
            proof {
                assert(item == pre[0]);
                assert(rest@ =~= pre.drop_first());
            }
            match item {
                RelationOrPermission::Relation(rel) => {
                    relations.push(rel);
                    proof {
                        assert(relations@ + spec_rops_relations(rest@) =~= relations@.drop_last()
                            + spec_rops_relations(pre));
                    }
                },
                RelationOrPermission::Permission(p) => {
                    permissions.push(p);
                    proof {
                        assert(permissions@ + spec_rops_permissions(rest@)
                            =~= permissions@.drop_last() + spec_rops_permissions(pre));
                    }
                },
            }
        }
        proof {
            assert(relations@ =~= relations@ + spec_rops_relations(rest@));
            assert(permissions@ =~= permissions@ + spec_rops_permissions(rest@));
        }
        Type { name, relations, permissions }
    }
}

/// The relations among a type's body items, in order.
pub open spec fn spec_rops_relations(s: Seq<RelationOrPermission>) -> Seq<Relation>
    decreases s.len(),
{
    if s.len() == 0 {
        Seq::empty()
    } else {
        let rest = spec_rops_relations(s.drop_first());
        match s[0] {
            RelationOrPermission::Relation(r) => seq![r] + rest,
            RelationOrPermission::Permission(_) => rest,
        }
    }
}

/// The permissions among a type's body items, in order.
pub open spec fn spec_rops_permissions(s: Seq<RelationOrPermission>) -> Seq<Permission>
    decreases s.len(),
{
    if s.len() == 0 {
        Seq::empty()
    } else {
        let rest = spec_rops_permissions(s.drop_first());
        match s[0] {
            RelationOrPermission::Relation(_) => rest,
            RelationOrPermission::Permission(p) => seq![p] + rest,
        }
    }
}

/// The types among a schema's units, in order.
pub open spec fn spec_units_types(s: Seq<SchemaUnit>) -> Seq<Type>
    decreases s.len(),
{
    if s.len() == 0 {
        Seq::empty()
    } else {
        let rest = spec_units_types(s.drop_first());
        match s[0] {
            SchemaUnit::Type(t) => seq![t] + rest,
            SchemaUnit::Condition(_) => rest,
        }
    }
}

/// The conditions among a schema's units, in order.
pub open spec fn spec_units_conditions(s: Seq<SchemaUnit>) -> Seq<Condition>
    decreases s.len(),
{
    if s.len() == 0 {
        Seq::empty()
    } else {
        let rest = spec_units_conditions(s.drop_first());
        match s[0] {
            SchemaUnit::Type(_) => rest,
            SchemaUnit::Condition(c) => seq![c] + rest,
        }
    }
}

impl Schema {
    /// Gather a schema's units into its types and conditions, keeping each
    /// list in source order.
    pub fn new(units: Vec<SchemaUnit>) -> (r: Self)
        ensures
            r.types@ == spec_units_types(units@),
            r.conditions@ == spec_units_conditions(units@),
    {
        let ghost all = units@;
        let mut rest = units;
        let mut types: Vec<Type> = Vec::new();
        let mut conditions: Vec<Condition> = Vec::new();
        while rest.len() > 0
            invariant
                types@ + spec_units_types(rest@) == spec_units_types(all),
                conditions@ + spec_units_conditions(rest@) == spec_units_conditions(all),
            decreases rest@.len(),
        {
            let ghost pre = rest@;
            let item = rest.remove(0);
            proof {
                assert(item == pre[0]);
                assert(rest@ =~= pre.drop_first());
            }
            match item {
                SchemaUnit::Type(t) => {
                    types.push(t);
                    proof {
                        assert(types@ + spec_units_types(rest@) =~= types@.drop_last()
                            + spec_units_types(pre));
                    }
                },
                SchemaUnit::Condition(c) => {
                    conditions.push(c);
                    proof {
                        assert(conditions@ + spec_units_conditions(rest@)
                            =~= conditions@.drop_last() + spec_units_conditions(pre));
                    }
                },
            }
        }
        proof {
            assert(types@ =~= types@ + spec_units_types(rest@));
            assert(conditions@ =~= conditions@ + spec_units_conditions(rest@));
        }
        Schema { types, conditions }
    }
}

/// Is `r` the declared direct reference the subject shape `s` compiles to?
/// A bare type is a plain reference; `type#*` the wildcard; `type#relation`
/// a userset reference.
pub open spec fn spec_subject_compiles(
    s: RelationshipSet,
    r: crate::model::RelationReference,
) -> bool {
    match s {
        RelationshipSet::Single(u) => r matches crate::model::RelationReference::Direct(d) && d@
            == u@,
        RelationshipSet::SetRef(u, rel) => if rel@ == crate::tuple::spec_wildcard() {
            r matches crate::model::RelationReference::Wildcard(w) && w@ == u@
        } else {
            r matches crate::model::RelationReference::Relation { typ, relation } && typ@ == u@
                && relation@ == rel@
        },
    }
}

/// Is `e` the compiled entry of the declared relation `rel`: the same name,
/// a direct rewrite, and one declared reference per subject shape?
pub open spec fn spec_relation_entry_compiles(
    rel: Relation,
    e: crate::model::RelationEntry,
) -> bool {
    e.name@ == rel.name@ && e.rewrite is This
        && e.metadata.directly_related_user_types@.len() == rel.subjects@.len() && forall|j: int|
        0 <= j < rel.subjects@.len() ==> spec_subject_compiles(
            rel.subjects@[j],
            #[trigger] e.metadata.directly_related_user_types@[j],
        )
}

/// Is `e` the compiled entry of the permission `p`: the same name, the
/// compiled rewrite, and no declared direct references?
pub open spec fn spec_permission_entry_compiles(
    p: Permission,
    e: crate::model::RelationEntry,
) -> bool {
    e.name@ == p.name@ && spec_to_userset_matches(p.permission, e.rewrite)
        && e.metadata.directly_related_user_types@.len() == 0
}

/// Is `out` the compiled form of the declared type `t`: its relations
/// first, then its permissions, in source order?
pub open spec fn spec_type_compiles(t: Type, out: crate::model::Type) -> bool {
    out.name@ == t.name@ && out.relations@.len() == t.relations@.len() + t.permissions@.len()
        && (forall|i: int|
        0 <= i < t.relations@.len() ==> spec_relation_entry_compiles(
            t.relations@[i],
            #[trigger] out.relations@[i],
        )) && (forall|k: int|
        0 <= k < t.permissions@.len() ==> spec_permission_entry_compiles(
            t.permissions@[k],
            out.relations@[t.relations@.len() + k],
        ))
}

/// Is `ts` the compiled form of the schema `s`, type by type?
pub open spec fn spec_schema_compiles(s: Schema, ts: crate::model::Typesystem) -> bool {
    ts.types@.len() == s.types@.len() && forall|i: int|
        0 <= i < s.types@.len() ==> spec_type_compiles(s.types@[i], #[trigger] ts.types@[i])
}

/// Compile the subject shapes of one relation into declared references.
fn compile_subjects(subjects: Vec<RelationshipSet>) -> (r: Vec<crate::model::RelationReference>)
    ensures
        r@.len() == subjects@.len(),
        forall|j: int|
            0 <= j < subjects@.len() ==> spec_subject_compiles(subjects@[j], #[trigger] r@[j]),
{
    let ghost all = subjects@;
    let star = crate::tuple::wildcard_string();
    let mut rest = subjects;
    let mut out: Vec<crate::model::RelationReference> = Vec::new();
    while rest.len() > 0
        invariant
            star@ == crate::tuple::spec_wildcard(),
            out@.len() + rest@.len() == all.len(),
            rest@ == all.skip(out@.len() as int),
            forall|j: int|
                0 <= j < out@.len() ==> spec_subject_compiles(all[j], #[trigger] out@[j]),
        decreases rest@.len(),
    {
        let ghost pre = rest@;
        let item = rest.remove(0);
        proof {
            assert(item == pre[0]);
            assert(pre[0] == all[out@.len() as int]);
            assert(rest@ =~= pre.drop_first());
            assert(pre.drop_first() =~= all.skip(out@.len() as int + 1));
        }
        match item {
            RelationshipSet::Single(u) => {
                out.push(crate::model::RelationReference::Direct(u));
            },
            RelationshipSet::SetRef(u, rel) => {
                if rel == star {
                    out.push(crate::model::RelationReference::Wildcard(u));
                } else {
                    out.push(crate::model::RelationReference::Relation { typ: u, relation: rel });
                }
            },
        }
    }
    out
}

impl Schema {
    /// Compile this schema into the typesystem the resolver consumes: each
    /// declared type becomes a compiled type whose entries are its
    /// relations, as direct rewrites with their declared references, then
    /// its permissions, as compiled rewrites.
    pub fn to_typesystem(self) -> (r: crate::model::Typesystem)
        ensures
            spec_schema_compiles(self, r),
    {
        let ghost all = self.types@;
        let mut rest = self.types;
        let mut out: Vec<crate::model::Type> = Vec::new();
        while rest.len() > 0
            invariant
                out@.len() + rest@.len() == all.len(),
                rest@ == all.skip(out@.len() as int),
                forall|i: int|
                    0 <= i < out@.len() ==> spec_type_compiles(all[i], #[trigger] out@[i]),
            decreases rest@.len(),
        {
            let ghost pre = rest@;
            let t = rest.remove(0);
            proof {
                assert(t == pre[0]);
                assert(pre[0] == all[out@.len() as int]);
                assert(rest@ =~= pre.drop_first());
                assert(pre.drop_first() =~= all.skip(out@.len() as int + 1));
            }
            let ghost tg = t;
            let mut entries: Vec<crate::model::RelationEntry> = Vec::new();
            let mut rels = t.relations;
            let ghost all_rels = rels@;
            while rels.len() > 0
                invariant
                    entries@.len() + rels@.len() == all_rels.len(),
                    rels@ == all_rels.skip(entries@.len() as int),
                    forall|i: int|
                        0 <= i < entries@.len() ==> spec_relation_entry_compiles(
                            all_rels[i],
                            #[trigger] entries@[i],
                        ),
                decreases rels@.len(),
            {
                let ghost rpre = rels@;
                let rel = rels.remove(0);
                proof {
                    assert(rel == rpre[0]);
                    assert(rpre[0] == all_rels[entries@.len() as int]);
                    assert(rels@ =~= rpre.drop_first());
                    assert(rpre.drop_first() =~= all_rels.skip(entries@.len() as int + 1));
                }
                let refs = compile_subjects(rel.subjects);
                entries.push(
                    crate::model::RelationEntry {
                        name: rel.name,
                        rewrite: Userset::This,
                        metadata: crate::model::RelationMetadata {
                            directly_related_user_types: refs,
                        },
                    },
                );
            }
            let ghost n_rels = entries@.len() as int;
            let mut perms = t.permissions;
            let ghost all_perms = perms@;
            while perms.len() > 0
                invariant
                    n_rels == all_rels.len(),
                    perms@.len() <= all_perms.len(),
                    entries@.len() == n_rels + (all_perms.len() - perms@.len()),
                    perms@ == all_perms.skip(entries@.len() - n_rels),
                    forall|i: int|
                        0 <= i < n_rels ==> spec_relation_entry_compiles(
                            all_rels[i],
                            #[trigger] entries@[i],
                        ),
                    forall|k: int|
                        0 <= k < entries@.len() - n_rels ==> spec_permission_entry_compiles(
                            all_perms[k],
                            #[trigger] entries@[n_rels + k],
                        ),
                decreases perms@.len(),
            {
                let ghost ppre = perms@;
                let ghost k = entries@.len() - n_rels;
                let p = perms.remove(0);
                proof {
                    assert(ppre == all_perms.skip(k));
                    assert(all_perms.skip(k)[0] == all_perms[k]);
                    assert(p == all_perms[k]);
                    assert(perms@ =~= ppre.drop_first());
                    assert(ppre.drop_first() =~= all_perms.skip(k + 1));
                }
                let rewrite = p.permission.to_userset();
                entries.push(
                    crate::model::RelationEntry {
                        name: p.name,
                        rewrite,
                        metadata: crate::model::RelationMetadata {
                            directly_related_user_types: Vec::new(),
                        },
                    },
                );
                proof {
                    assert(spec_permission_entry_compiles(all_perms[k], entries@[n_rels + k]));
                }
            }
            out.push(crate::model::Type { name: t.name, relations: entries });
            proof {
                assert(spec_type_compiles(tg, out@[out@.len() - 1]));
            }
        }
        crate::model::Typesystem { types: out }
    }
}

} // verus!
