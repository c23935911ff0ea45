use vstd::prelude::*;

use crate::tuple::TupleKey;

verus! {

/// A transport-level check request: the key to decide and the request's
/// contextual tuples, against an optional model version.
#[derive(Debug)]
pub struct CheckReq {
    pub model_id: Option<String>,
    pub tuple_key: TupleKey,
    pub contextual_tuples: Vec<TupleKey>,
}

/// A transport-level forward-expansion request.
#[derive(Debug)]
pub struct ExpandReq {
    pub model_id: Option<String>,
    pub relation: String,
    pub object_type: String,
    pub object_id: String,
}

/// A transport-level objects-expansion request: which objects does the
/// subject hold the relation on?
#[derive(Debug)]
pub struct ExpandObjectsReq {
    pub model_id: Option<String>,
    pub relation: String,
    pub object_type: String,
    pub user_type: String,
    pub user_id: String,
    pub user_relation: Option<String>,
}

/// The objects an objects-expansion found.
#[derive(Debug)]
pub struct ExpandObjectsResp {
    pub object_ids: Vec<String>,
}

/// A transport-level users-expansion request: which subjects hold the
/// relation on the object?
#[derive(Debug)]
pub struct ExpandUsersReq {
    pub model_id: Option<String>,
    pub relation: String,
    pub object_type: String,
    pub object_id: String,
    pub user_type: String,
    pub user_relation: Option<String>,
}

/// The subjects a users-expansion found.
#[derive(Debug)]
pub struct ExpandUsersResp {
    pub user_ids: Vec<String>,
}

} // verus!
