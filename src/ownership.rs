//! The ownership gate: whether an authenticated user may act on a resource, and the mapping
//! of outcomes to response statuses shared by every resource handler.
use vstd::prelude::*;

verus! {

/// Why the ownership check refused.
#[derive(Debug, Clone, Copy, PartialEq, Eq, Structural)]
pub enum GateError {
    /// The resource does not exist.
    NotFound,
    /// The resource exists and the user is not entitled to it.
    Forbidden,
}

/// What the user wants to do with a resource.
#[derive(Debug, Clone, Copy, PartialEq, Eq, Structural)]
pub enum Action {
    Read,
    Modify,
}

/// What a resource without an owner allows; each resource type chooses one.
#[derive(Debug, Clone, Copy, PartialEq, Eq, Structural)]
pub enum SharedPolicy {
    /// Nobody may act on it.
    Closed,
    /// Everybody may read it, nobody may change it.
    ReadOnly,
    /// Everybody may read and change it.
    Open,
}

/// The response status of a finished request.
#[derive(Debug, Clone, Copy, PartialEq, Eq, Structural)]
pub enum Status {
    NoContent,
    Unauthorized,
    Forbidden,
    NotFound,
    Conflict,
    InternalServerError,
}

/// Whether user `identity` may perform `action` on a resource whose owner is `owner`.
pub open spec fn owner_allows(
    identity: i64,
    owner: Option<i64>,
    action: Action,
    policy: SharedPolicy,
) -> bool {
    match owner {
        Some(u) => u == identity,
        None => match policy {
            SharedPolicy::Closed => false,
            SharedPolicy::ReadOnly => action == Action::Read,
            SharedPolicy::Open => true,
        },
    }
}

/// The ownership check's answer for a resource that is directly owned; `resource` is `None` when the
/// resource does not exist and otherwise holds its owner.
pub open spec fn direct_gate(
    identity: i64,
    resource: Option<Option<i64>>,
    action: Action,
    policy: SharedPolicy,
) -> Result<(), GateError> {
    match resource {
        None => Err(GateError::NotFound),
        Some(owner) => if owner_allows(identity, owner, action, policy) {
            Ok(())
        } else {
            Err(GateError::Forbidden)
        },
    }
}

/// The ownership check's answer for a resource owned through ownership records.
pub open spec fn membership_gate(exists: bool, linked: bool) -> Result<(), GateError> {
    if !exists {
        Err(GateError::NotFound)
    } else if !linked {
        Err(GateError::Forbidden)
    } else {
        Ok(())
    }
}

/// Checks a directly owned resource against the user, for the given action and policy.
pub fn check_owner(identity: i64, resource: Option<Option<i64>>, action: Action, policy: SharedPolicy) -> (r:
    Result<(), GateError>)
    ensures
        r == direct_gate(identity, resource, action, policy),
{
    match resource {
        None => Err(GateError::NotFound),
        Some(owner) => {
            let allowed = match owner {
                Some(u) => u == identity,
                None => match policy {
                    SharedPolicy::Closed => false,
                    SharedPolicy::ReadOnly => match action {
                        Action::Read => true,
                        Action::Modify => false,
                    },
                    SharedPolicy::Open => true,
                },
            };
            if allowed {
                Ok(())
            } else {
                Err(GateError::Forbidden)
            }
        },
    }
}

/// Checks a resource owned through ownership records: absent is `NotFound`, present without
/// a record for the user is `Forbidden`.
pub fn check_membership(exists: bool, linked: bool) -> (r: Result<(), GateError>)
    ensures
        r == membership_gate(exists, linked),
{
    if !exists {
        Err(GateError::NotFound)
    } else if !linked {
        Err(GateError::Forbidden)
    } else {
        Ok(())
    }
}

/// Checks a resource owned through its parent (a transaction through its account): an absent
/// resource is `NotFound`, and any refusal on the parent is `Forbidden`.
pub fn check_through_parent(exists: bool, parent: Result<(), GateError>) -> (r: Result<(), GateError>)
    ensures
        !exists ==> r == Err::<(), GateError>(GateError::NotFound),
        exists && parent is Err ==> r == Err::<(), GateError>(GateError::Forbidden),
        exists && parent is Ok ==> r == Ok::<(), GateError>(()),
{
    if !exists {
        Err(GateError::NotFound)
    } else {
        match parent {
            Ok(()) => Ok(()),
            Err(_) => Err(GateError::Forbidden),
        }
    }
}

/// Checks a resource that links two independently owned ones: both checks must pass, and the
/// first refusal is the answer.
pub fn check_both(first: Result<(), GateError>, second: Result<(), GateError>) -> (r: Result<(), GateError>)
    ensures
        first is Err ==> r == first,
        first is Ok ==> r == second,
{
    match first {
        Ok(()) => second,
        Err(e) => Err(e),
    }
}

/// The response status of a gate refusal.
pub fn gate_status(e: GateError) -> (r: Status)
    ensures
        e == GateError::NotFound ==> r == Status::NotFound,
        e == GateError::Forbidden ==> r == Status::Forbidden,
{
    match e {
        GateError::NotFound => Status::NotFound,
        GateError::Forbidden => Status::Forbidden,
    }
}

/// The response of an update or delete that touched `rows` rows, or failed in storage.
pub fn finalize_update_delete<E>(result: Result<usize, E>) -> (r: Result<Status, Status>)
    ensures
        r == match result {
            Ok(n) => if n > 0 {
                Ok::<Status, Status>(Status::NoContent)
            } else {
                Err(Status::NotFound)
            },
            Err(_) => Err(Status::InternalServerError),
        },
{
    match result {
        Ok(n) => if n > 0 {
            Ok(Status::NoContent)
        } else {
            Err(Status::NotFound)
        },
        Err(_) => Err(Status::InternalServerError),
    }
}

/// The response of a list read: the items when there are some, `NoContent` when there are
/// none, and a bare internal error when storage failed.
pub fn unpack<T, E>(result: Result<Vec<T>, E>) -> (r: Result<Vec<T>, Status>)
    ensures
        result is Err ==> r == Err::<Vec<T>, Status>(Status::InternalServerError),
        result is Ok && result->Ok_0@.len() == 0 ==> r == Err::<Vec<T>, Status>(Status::NoContent),
        result is Ok && result->Ok_0@.len() > 0 ==> r is Ok && r->Ok_0@ == result->Ok_0@,
{
    match result {
        Ok(v) => if v.len() != 0 {
            Ok(v)
        } else {
            Err(Status::NoContent)
        },
        Err(_) => Err(Status::InternalServerError),
    }
}

} // verus!
