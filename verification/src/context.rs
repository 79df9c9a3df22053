//! The context that comes with each request: who is logged in, and what
//! they may do.

use crate::error::ResponseError;
use crate::models::permission::{permission_from_name, PermissionType};
use vstd::prelude::*;

verus! {

broadcast use vstd::std_specs::vec::group_vec_axioms;

/// Information on the logged-in user.
#[derive(Clone, Debug, PartialEq)]
pub struct AuthorizedUser {
    /// The user's ID: the 128 bits of its UUID.
    pub id: u128,
    pub username: String,
    /// The permissions granted by the user's roles, each once.
    pub permissions: Vec<PermissionType>,
    /// Does one of the user's roles make them an admin?
    pub is_admin: bool,
}

impl AuthorizedUser {
    /// Checks if the user has the requested permission. Admins implicitly
    /// have all permissions.
    pub fn has_permission(&self, permission: PermissionType) -> (r: bool)
        ensures
            r == (self.is_admin || self.permissions@.contains(permission)),
    {
        if self.is_admin {
            return true;
        }
        let mut i: usize = 0;
        while i < self.permissions.len()
            invariant
                i <= self.permissions@.len(),
                forall|j: int| 0 <= j < i ==> self.permissions@[j] != permission,
            decreases self.permissions@.len() - i,
        {
            if self.permissions[i] == permission {
                return true;
            }
            i = i + 1;
        }
        false
    }
}

/// The part of the context about the logged-in user.
#[derive(Clone, Debug, PartialEq)]
pub struct UserContext {
    /// The ID of the user provider that the user logged in with: the 128
    /// bits of its UUID.
    pub user_provider_id: u128,
    /// The user; `None` while they are logged in but have not set their
    /// username yet.
    pub user: Option<AuthorizedUser>,
}

/// Is a permission row's name one that names no permission?
pub open spec fn row_name_invalid(row: (Option<String>, bool)) -> bool {
    row.0 matches Some(name) && permission_from_name(name@) is None
}

/// Does a permission row grant the permission?
pub open spec fn row_grants(row: (Option<String>, bool), p: PermissionType) -> bool {
    row.0 matches Some(name) && permission_from_name(name@) == Some(p)
}

/// Does the sequence hold no value twice?
pub open spec fn no_duplicates(s: Seq<PermissionType>) -> bool {
    forall|i: int, j: int| 0 <= i < j < s.len() ==> s[i] != s[j]
}

/// Is the user the one that the permission rows describe: permissions
/// granted by some row, each once, and an admin if some row's role is?
pub open spec fn user_from_rows(user: AuthorizedUser, rows: Seq<(Option<String>, bool)>) -> bool {
    &&& no_duplicates(user.permissions@)
    &&& forall|p: PermissionType|
        user.permissions@.contains(p) <==> exists|k: int| 0 <= k < rows.len() && #[trigger] row_grants(rows[k], p)
    &&& user.is_admin == exists|k: int| 0 <= k < rows.len() && #[trigger] rows[k].1
}

impl UserContext {
    /// Builds the user context from what the database holds for a user
    /// provider: the linked user's ID and name (`None` if no such provider
    /// exists; both inner values `None` while no user is linked yet), and
    /// one row per permission of the user's roles, with its name and whether
    /// the role makes the user an admin. Fails with the first permission
    /// name, in row order, that names no permission. An ID without a name, or a name
    /// without an ID, cannot come from the database and is left out.
    pub fn from_rows(
        user_provider_id: u128,
        user_row: Option<(Option<u128>, Option<String>)>,
        permission_rows: Vec<(Option<String>, bool)>,
    ) -> (r: Result<Option<UserContext>, ResponseError>)
        requires
            user_row matches Some(row) ==> (row.0 is Some <==> row.1 is Some),
        ensures
            match user_row {
                None => r == Ok::<Option<UserContext>, ResponseError>(None),
                Some((None, _)) => r == Ok::<Option<UserContext>, ResponseError>(
                    Some(UserContext { user_provider_id, user: None }),
                ),
                Some((Some(id), Some(name))) => match r {
                    Ok(Some(ctx)) => {
                        &&& ctx.user_provider_id == user_provider_id
                        &&& ctx.user matches Some(u) && u.id == id && u.username == name
                            && user_from_rows(u, permission_rows@)
                        &&& forall|k: int| 0 <= k < permission_rows@.len() ==> !row_name_invalid(#[trigger] permission_rows@[k])
                    },
                    Ok(None) => false,
                    Err(e) => exists|k: int|
                        0 <= k < permission_rows@.len() && #[trigger] row_name_invalid(permission_rows@[k])
                            && (forall|j: int| 0 <= j < k ==> !row_name_invalid(#[trigger] permission_rows@[j]))
                            && e == ResponseError::InvalidDbValue(permission_rows@[k].0->Some_0),
                },
                Some((Some(_), None)) => false,
            },
    {
        match user_row {
            None => Ok(None),
            Some((None, _)) => Ok(Some(UserContext { user_provider_id, user: None })),
            Some((Some(id), name)) => {
                let username = match name {
                    Some(n) => n,
                    None => {
                        proof {
                            assert(false);
                        }
                        String::new()
                    },
                };
                let mut permissions: Vec<PermissionType> = Vec::new();
                let mut is_admin = false;
                let mut k: usize = 0;
                while k < permission_rows.len()
                    invariant
                        user_row matches Some((Some(_), Some(_))),
                        k <= permission_rows@.len(),
                        no_duplicates(permissions@),
                        forall|p: PermissionType|
                            permissions@.contains(p) <==> exists|j: int| 0 <= j < k && #[trigger] row_grants(permission_rows@[j], p),
                        is_admin == exists|j: int| 0 <= j < k && #[trigger] permission_rows@[j].1,
                        forall|j: int| 0 <= j < k ==> !row_name_invalid(#[trigger] permission_rows@[j]),
                    decreases permission_rows@.len() - k,
                {
                    let row = &permission_rows[k];
                    let ghost before = permissions@;
                    if let Some(name) = &row.0 {
                        match PermissionType::from_name(name.as_str()) {
                            None => {
                                assert(row_name_invalid(permission_rows@[k as int]));
                                return Err(ResponseError::InvalidDbValue(name.clone()));
                            },
                            Some(p) => {
                                if !permissions_contain(&permissions, p) {
                                    permissions.push(p);
                                }
                                assert(row_grants(permission_rows@[k as int], p));
                                assert forall|q: PermissionType|
                                    permissions@.contains(q) <==> exists|j: int| 0 <= j < k + 1 && #[trigger] row_grants(permission_rows@[j], q) by {
                                    if exists|j: int| 0 <= j < k + 1 && #[trigger] row_grants(permission_rows@[j], q) {
                                        let j = choose|j: int| 0 <= j < k + 1 && #[trigger] row_grants(permission_rows@[j], q);
                                        if j < k {
                                            assert(before.contains(q));
                                            let w = choose|w: int| 0 <= w < before.len() && before[w] == q;
                                            assert(permissions@[w] == q);
                                        } else {
                                            assert(q == p);
                                            assert(permissions@.contains(p)) by {
                                                if before.contains(p) {
                                                    let w = choose|w: int| 0 <= w < before.len() && before[w] == p;
                                                    assert(permissions@[w] == p);
                                                } else {
                                                    assert(permissions@[before.len() as int] == p);
                                                }
                                            }
                                        }
                                    }
                                    if permissions@.contains(q) {
                                        let w = choose|w: int| 0 <= w < permissions@.len() && permissions@[w] == q;
                                        if w < before.len() {
                                            assert(before[w] == q);
                                            assert(before.contains(q));
                                        } else {
                                            assert(q == p);
                                        }
                                    }
                                }
                            },
                        }
                    } else {
                        assert forall|q: PermissionType|
                            permissions@.contains(q) <==> exists|j: int| 0 <= j < k + 1 && #[trigger] row_grants(permission_rows@[j], q) by {
                            if exists|j: int| 0 <= j < k + 1 && #[trigger] row_grants(permission_rows@[j], q) {
                                let j = choose|j: int| 0 <= j < k + 1 && #[trigger] row_grants(permission_rows@[j], q);
                                assert(j < k);
                            }
                        }
                    }
                    is_admin = is_admin || row.1;
                    k = k + 1;
                }
                let user = AuthorizedUser { id, username, permissions, is_admin };
                Ok(Some(UserContext { user_provider_id, user: Some(user) }))
            },
        }
    }

    /// The logged-in user, if they have finished setting up their user;
    /// otherwise the action needs a user that is not there.
    pub fn authorized_user(user_context: &Option<UserContext>) -> (r: Result<&AuthorizedUser, ResponseError>)
        ensures
            match user_context {
                Some(UserContext { user: Some(u), .. }) => r == Ok::<&AuthorizedUser, ResponseError>(u),
                _ => r == Err::<&AuthorizedUser, ResponseError>(ResponseError::Unauthenticated),
            },
    {
        match user_context {
            Some(UserContext { user: Some(u), .. }) => Ok(u),
            _ => Err(ResponseError::Unauthenticated),
        }
    }

    /// Checks that a user is logged in and has the permission that an action
    /// needs.
    pub fn check_permission(user_context: &Option<UserContext>, permission: PermissionType) -> (r: Result<(), ResponseError>)
        ensures
            match user_context {
                Some(UserContext { user: Some(u), .. }) => if u.is_admin || u.permissions@.contains(permission) {
                    r is Ok
                } else {
                    r == Err::<(), ResponseError>(ResponseError::PermissionDenied)
                },
                _ => r == Err::<(), ResponseError>(ResponseError::Unauthenticated),
            },
    {
        let user = UserContext::authorized_user(user_context)?;
        if user.has_permission(permission) {
            Ok(())
        } else {
            Err(ResponseError::PermissionDenied)
        }
    }
}

impl UserContext {
    /// The user provider to link a new user to: the requester must be logged
    /// in. Whether a user is linked to it already shows when the link is
    /// made, by [`UserContext::check_linked`].
    pub fn provider_to_initialize(user_context: &Option<UserContext>) -> (r: Result<u128, ResponseError>)
        ensures
            match user_context {
                Some(ctx) => r == Ok::<u128, ResponseError>(ctx.user_provider_id),
                None => r == Err::<u128, ResponseError>(ResponseError::Unauthenticated),
            },
    {
        match user_context {
            Some(ctx) => Ok(ctx.user_provider_id),
            None => Err(ResponseError::Unauthenticated),
        }
    }

    /// Checks that linking a new user to its user provider changed exactly
    /// the provider's row: none changes when the provider does not exist or
    /// has a user already.
    pub fn check_linked(updated_rows: usize) -> (r: Result<(), ResponseError>)
        ensures
            updated_rows == 0 ==> r == Err::<(), ResponseError>(ResponseError::NotFound(None)),
            updated_rows != 0 ==> r is Ok,
    {
        if updated_rows == 0 {
            Err(ResponseError::NotFound(None))
        } else {
            Ok(())
        }
    }
}

/// Does the list hold the permission?
fn permissions_contain(permissions: &Vec<PermissionType>, p: PermissionType) -> (r: bool)
    ensures
        r == permissions@.contains(p),
{
    let mut i: usize = 0;
    while i < permissions.len()
        invariant
            i <= permissions@.len(),
            forall|j: int| 0 <= j < i ==> permissions@[j] != p,
        decreases permissions@.len() - i,
    {
        if permissions[i] == p {
            return true;
        }
        i = i + 1;
    }
    false
}

} // verus!
