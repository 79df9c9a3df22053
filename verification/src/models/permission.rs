//! The kinds of permission that a role can grant, and their names in the
//! database.

use crate::text::str_equal;
use vstd::prelude::*;

verus! {

/// A permission that a role can grant to its users.
#[derive(Copy, Clone, Debug, PartialEq, Eq, Hash, Structural)]
pub enum PermissionType {
    /// User can create new hardware and program specs.
    CreateSpecs,
    /// User can modify all existing hardware and program specs, regardless of
    /// whether or not they are the owner.
    ModifyAllSpecs,
    /// User can delete all existing hardware and program specs, regardless of
    /// whether or not they are the owner.
    DeleteAllSpecs,
    /// User can view all existing user programs, not just their own.
    ViewAllUserPrograms,
}

/// The name under which the database stores a permission.
pub open spec fn permission_name(p: PermissionType) -> Seq<char> {
    match p {
        PermissionType::CreateSpecs => "Create Specs"@,
        PermissionType::ModifyAllSpecs => "Modify All Specs"@,
        PermissionType::DeleteAllSpecs => "Delete All Specs"@,
        PermissionType::ViewAllUserPrograms => "View All User Programs"@,
    }
}

/// The permission stored under a name, if any.
pub open spec fn permission_from_name(name: Seq<char>) -> Option<PermissionType> {
    if name == permission_name(PermissionType::CreateSpecs) {
        Some(PermissionType::CreateSpecs)
    } else if name == permission_name(PermissionType::ModifyAllSpecs) {
        Some(PermissionType::ModifyAllSpecs)
    } else if name == permission_name(PermissionType::DeleteAllSpecs) {
        Some(PermissionType::DeleteAllSpecs)
    } else if name == permission_name(PermissionType::ViewAllUserPrograms) {
        Some(PermissionType::ViewAllUserPrograms)
    } else {
        None
    }
}

impl PermissionType {
    /// The name under which the database stores this permission.
    pub fn to_str(self) -> (name: &'static str)
        ensures
            name@ == permission_name(self),
    {
        match self {
            PermissionType::CreateSpecs => "Create Specs",
            PermissionType::ModifyAllSpecs => "Modify All Specs",
            PermissionType::DeleteAllSpecs => "Delete All Specs",
            PermissionType::ViewAllUserPrograms => "View All User Programs",
        }
    }

    /// The permission stored under a name; `None` for a name that no
    /// permission has.
    pub fn from_name(name: &str) -> (p: Option<PermissionType>)
        ensures
            p == permission_from_name(name@),
    {
        if str_equal(name, PermissionType::CreateSpecs.to_str()) {
            Some(PermissionType::CreateSpecs)
        } else if str_equal(name, PermissionType::ModifyAllSpecs.to_str()) {
            Some(PermissionType::ModifyAllSpecs)
        } else if str_equal(name, PermissionType::DeleteAllSpecs.to_str()) {
            Some(PermissionType::DeleteAllSpecs)
        } else if str_equal(name, PermissionType::ViewAllUserPrograms.to_str()) {
            Some(PermissionType::ViewAllUserPrograms)
        } else {
            None
        }
    }
}

/// Law: no two permissions share a name, so the name of a permission reads
/// back as that permission.
pub proof fn lemma_permission_name_roundtrip(p: PermissionType)
    ensures
        permission_from_name(permission_name(p)) == Some(p),
{
    reveal_strlit("Create Specs");
    reveal_strlit("Modify All Specs");
    reveal_strlit("Delete All Specs");
    reveal_strlit("View All User Programs");
    assert(permission_name(PermissionType::CreateSpecs)[0] != permission_name(PermissionType::ModifyAllSpecs)[0]);
    assert(permission_name(PermissionType::CreateSpecs)[0] != permission_name(PermissionType::DeleteAllSpecs)[0]);
    assert(permission_name(PermissionType::CreateSpecs)[0] != permission_name(PermissionType::ViewAllUserPrograms)[0]);
    assert(permission_name(PermissionType::ModifyAllSpecs)[0] != permission_name(PermissionType::DeleteAllSpecs)[0]);
    assert(permission_name(PermissionType::ModifyAllSpecs)[0] != permission_name(PermissionType::ViewAllUserPrograms)[0]);
    assert(permission_name(PermissionType::DeleteAllSpecs)[0] != permission_name(PermissionType::ViewAllUserPrograms)[0]);
}

/// Law: a name reads back as a permission only if it is that permission's
/// name.
pub proof fn lemma_permission_from_name_sound(name: Seq<char>, p: PermissionType)
    requires
        permission_from_name(name) == Some(p),
    ensures
        permission_name(p) == name,
{
}

} // verus!
