//! The roles that users can hold, and their names in the database.

use crate::text::str_equal;
use vstd::prelude::*;

verus! {

/// A role that a user can hold; each role grants a set of permissions.
#[derive(Copy, Clone, Debug, PartialEq, Eq, Hash, Structural)]
pub enum RoleType {
    /// These users can perform any action.
    Admin,
    /// These users can create specs, but not modify or delete them.
    SpecCreator,
}

/// The name under which the database stores a role.
pub open spec fn role_name(r: RoleType) -> Seq<char> {
    match r {
        RoleType::Admin => "Admin"@,
        RoleType::SpecCreator => "Spec Creator"@,
    }
}

/// The role stored under a name, if any.
pub open spec fn role_from_name(name: Seq<char>) -> Option<RoleType> {
    if name == role_name(RoleType::Admin) {
        Some(RoleType::Admin)
    } else if name == role_name(RoleType::SpecCreator) {
        Some(RoleType::SpecCreator)
    } else {
        None
    }
}

impl RoleType {
    /// The name under which the database stores this role.
    pub fn to_str(self) -> (name: &'static str)
        ensures
            name@ == role_name(self),
    {
        match self {
            RoleType::Admin => "Admin",
            RoleType::SpecCreator => "Spec Creator",
        }
    }

    /// The role stored under a name; `None` for a name that no role has.
    pub fn from_name(name: &str) -> (r: Option<RoleType>)
        ensures
            r == role_from_name(name@),
    {
        if str_equal(name, RoleType::Admin.to_str()) {
            Some(RoleType::Admin)
        } else if str_equal(name, RoleType::SpecCreator.to_str()) {
            Some(RoleType::SpecCreator)
        } else {
            None
        }
    }
}

/// Law: the two roles have different names, so the name of a role reads
/// back as that role.
pub proof fn lemma_role_name_roundtrip(r: RoleType)
    ensures
        role_from_name(role_name(r)) == Some(r),
{
    reveal_strlit("Admin");
    reveal_strlit("Spec Creator");
    assert(role_name(RoleType::Admin)[0] != role_name(RoleType::SpecCreator)[0]);
}

/// Law: a name reads back as a role only if it is that role's name.
pub proof fn lemma_role_from_name_sound(name: Seq<char>, r: RoleType)
    requires
        role_from_name(name) == Some(r),
    ensures
        role_name(r) == name,
{
}

} // verus!
