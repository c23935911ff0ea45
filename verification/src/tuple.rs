use vstd::prelude::*;

verus! {

/// A relationship tuple key: `object_type:object_id # relation @
/// user_type:user_id[#user_relation]`.  `user_relation` is the empty string
/// for user-as-subject keys and non-empty only for userset references.
#[derive(Debug)]
pub struct TupleKey {
    pub user_type: String,
    pub user_id: String,
    pub user_relation: String,
    pub relation: String,
    pub object_type: String,
    pub object_id: String,
}

/// A persisted relationship tuple.  Unlike `TupleKey`, the subject's
/// `user_relation` is optional: `None` marks a plain subject, `Some`
/// a userset reference.
#[derive(Debug)]
pub struct Tuple {
    pub user_type: String,
    pub user_id: String,
    pub user_relation: Option<String>,
    pub relation: String,
    pub object_type: String,
    pub object_id: String,
}

impl Clone for TupleKey {
    /// An exact copy of the key.
    fn clone(&self) -> (r: Self)
        ensures
            r == *self,
    {
        TupleKey {
            user_type: self.user_type.clone(),
            user_id: self.user_id.clone(),
            user_relation: self.user_relation.clone(),
            relation: self.relation.clone(),
            object_type: self.object_type.clone(),
            object_id: self.object_id.clone(),
        }
    }
}

impl Clone for Tuple {
    /// An exact copy of the tuple.
    fn clone(&self) -> (r: Self)
        ensures
            r == *self,
    {
        Tuple {
            user_type: self.user_type.clone(),
            user_id: self.user_id.clone(),
            user_relation: match &self.user_relation {
                Some(s) => Some(s.clone()),
                None => None,
            },
            relation: self.relation.clone(),
            object_type: self.object_type.clone(),
            object_id: self.object_id.clone(),
        }
    }
}

/// The subject id that grants a relation to every id of its type.
pub open spec fn spec_wildcard() -> Seq<char> {
    "*"@
}

/// The wildcard subject id, as a string.
pub fn wildcard_string() -> (r: String)
    ensures
        r@ == spec_wildcard(),
{
    String::from_str("*")
}

/// Wire encoding of a key: `ot:oid-rel-ut:uid[#urel]`.
pub open spec fn spec_cache_key(k: TupleKey) -> Seq<char> {
    k.object_type@ + ":"@ + k.object_id@ + "-"@ + k.relation@ + "-"@ + k.user_type@ + ":"@
        + k.user_id@ + if k.user_relation@.len() == 0 {
        Seq::<char>::empty()
    } else {
        "#"@ + k.user_relation@
    }
}

/// Path fingerprint of a key, used by the cycle guard:
/// `ot:oid#rel@ut:uid[#urel]`.
pub open spec fn spec_path_fingerprint(k: TupleKey) -> Seq<char> {
    k.object_type@ + ":"@ + k.object_id@ + "#"@ + k.relation@ + "@"@ + k.user_type@ + ":"@
        + k.user_id@ + if k.user_relation@.len() == 0 {
        Seq::<char>::empty()
    } else {
        "#"@ + k.user_relation@
    }
}

impl TupleKey {
    /// The canonical wire encoding, used in cache fingerprints.
    pub fn cache_key(&self) -> (r: String)
        ensures
            r@ == spec_cache_key(*self),
    {
        let mut s = String::new();
        s.append(self.object_type.as_str());
        s.append(":");
        s.append(self.object_id.as_str());
        s.append("-");
        s.append(self.relation.as_str());
        s.append("-");
        s.append(self.user_type.as_str());
        s.append(":");
        s.append(self.user_id.as_str());
        if self.user_relation.as_str().is_empty() {
            assert(s@ == spec_cache_key(*self));
        } else {
            s.append("#");
            s.append(self.user_relation.as_str());
        }
        s
    }

    /// The cycle-guard fingerprint of this key.
    pub fn path_fingerprint(&self) -> (r: String)
        ensures
            r@ == spec_path_fingerprint(*self),
    {
        let mut s = String::new();
        s.append(self.object_type.as_str());
        s.append(":");
        s.append(self.object_id.as_str());
        s.append("#");
        s.append(self.relation.as_str());
        s.append("@");
        s.append(self.user_type.as_str());
        s.append(":");
        s.append(self.user_id.as_str());
        if !self.user_relation.as_str().is_empty() {
            s.append("#");
            s.append(self.user_relation.as_str());
        }
        s
    }
}

/// The view of a contextual `TupleKey` as a stored tuple: an empty
/// `user_relation` becomes `None`.
pub open spec fn spec_key_as_tuple(k: TupleKey) -> Tuple {
    Tuple {
        user_type: k.user_type,
        user_id: k.user_id,
        user_relation: if k.user_relation@.len() == 0 {
            None
        } else {
            Some(k.user_relation)
        },
        relation: k.relation,
        object_type: k.object_type,
        object_id: k.object_id,
    }
}

impl TupleKey {
    /// Turn a contextual key into the tuple it stands for.
    pub fn as_tuple(&self) -> (r: Tuple)
        ensures
            r == spec_key_as_tuple(*self),
    {
        Tuple {
            user_type: self.user_type.clone(),
            user_id: self.user_id.clone(),
            user_relation: if self.user_relation.as_str().is_empty() {
                None
            } else {
                Some(self.user_relation.clone())
            },
            relation: self.relation.clone(),
            object_type: self.object_type.clone(),
            object_id: self.object_id.clone(),
        }
    }
}

} // verus!
