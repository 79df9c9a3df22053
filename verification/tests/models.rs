use gdlk::models::permission::PermissionType;
use gdlk::models::role::RoleType;
use gdlk::models::user_program_record::UserProgramRecordStats;
use gdlk::models::Environment;

const PERMISSIONS: [PermissionType; 4] = [
    PermissionType::CreateSpecs,
    PermissionType::ModifyAllSpecs,
    PermissionType::DeleteAllSpecs,
    PermissionType::ViewAllUserPrograms,
];

#[test]
fn test_permission_names() {
    assert_eq!(PermissionType::CreateSpecs.to_str(), "Create Specs");
    assert_eq!(PermissionType::ModifyAllSpecs.to_str(), "Modify All Specs");
    assert_eq!(PermissionType::DeleteAllSpecs.to_str(), "Delete All Specs");
    assert_eq!(PermissionType::ViewAllUserPrograms.to_str(), "View All User Programs");
    for p in PERMISSIONS {
        assert_eq!(PermissionType::from_name(p.to_str()), Some(p));
    }
    assert_eq!(PermissionType::from_name("create specs"), None);
    assert_eq!(PermissionType::from_name(""), None);
}

#[test]
fn test_role_names() {
    assert_eq!(RoleType::Admin.to_str(), "Admin");
    assert_eq!(RoleType::SpecCreator.to_str(), "Spec Creator");
    for r in [RoleType::Admin, RoleType::SpecCreator] {
        assert_eq!(RoleType::from_name(r.to_str()), Some(r));
    }
    assert_eq!(RoleType::from_name("Spec Creators"), None);
}

fn stats(cpu_cycles: i32, instructions: i32, registers_used: i32, stacks_used: i32) -> UserProgramRecordStats {
    UserProgramRecordStats { cpu_cycles, instructions, registers_used, stacks_used }
}

#[test]
fn test_personal_bests() {
    assert_eq!(UserProgramRecordStats::personal_bests(&[]), None);
    assert_eq!(
        UserProgramRecordStats::personal_bests(&[stats(10, 5, 2, 1)]),
        Some(stats(10, 5, 2, 1))
    );
    // Each stat is the best over all rows, even from different rows.
    assert_eq!(
        UserProgramRecordStats::personal_bests(&[
            stats(10, 5, 2, 1),
            stats(7, 9, 3, 0),
            stats(12, 4, 1, 2),
        ]),
        Some(stats(7, 4, 1, 0))
    );
}

#[test]
fn test_environment_default() {
    let env = Environment::default();
    assert_eq!(env.num_registers, 1);
    assert_eq!(env.num_stacks, 0);
    assert!(env.input.is_empty());
}

use gdlk::models::inputs::{
    copy_file_name, ModifiedProgramSpec, ModifiedUserProgram, NewProgramSpec, NewUser, NewUserProgram,
};
use gdlk::models::user_program_pb::StatType;
use gdlk::validation::{Valid, Validate, ValidationError};

#[test]
fn test_stat_types() {
    let all = StatType::all_types();
    assert_eq!(all.len(), 4);
    let names: Vec<&str> = all.iter().map(|s| s.to_str()).collect();
    assert_eq!(names, vec!["cpu_cycles", "instructions", "registers_used", "stacks_used"]);
    for s in all {
        assert_eq!(StatType::from_name(s.to_str()), Some(s));
    }
    assert_eq!(StatType::from_name("cycles"), None);
}

#[test]
fn test_new_user_validation() {
    assert!(NewUser { username: "user1" }.validate().is_ok());
    assert!(NewUser { username: "abcdefghijklmnopqrst" }.validate().is_ok());
    assert_eq!(
        NewUser { username: "" }.validate().unwrap_err().errors,
        vec![ValidationError::Length("username")]
    );
    assert_eq!(
        NewUser { username: "abcdefghijklmnopqrstu" }.validate().unwrap_err().errors,
        vec![ValidationError::Length("username")]
    );
    // Characters, not bytes, are counted.
    assert!(NewUser { username: "ééééééééééééééééééé" }.validate().is_ok());
    assert!(Valid::validate(NewUser { username: "x" }).is_ok());
}

#[test]
fn test_program_spec_validation() {
    let ok = NewProgramSpec {
        hardware_spec_id: 1,
        name: "prog",
        description: "",
        input: vec![1; 256],
        expected_output: vec![],
    };
    assert!(ok.validate().is_ok());
    let bad = NewProgramSpec { name: "", input: vec![0; 257], expected_output: vec![0; 300], ..ok.clone() };
    assert_eq!(
        bad.validate().unwrap_err().errors,
        vec![
            ValidationError::Length("name"),
            ValidationError::Length("input"),
            ValidationError::Length("expected_output")
        ]
    );
    let change = ModifiedProgramSpec {
        id: 1,
        name: None,
        description: None,
        input: Some(vec![0; 257]),
        expected_output: None,
    };
    assert_eq!(change.validate().unwrap_err().errors, vec![ValidationError::Length("input")]);
    let no_change = ModifiedProgramSpec { input: None, ..change };
    assert!(no_change.validate().is_ok());
}

#[test]
fn test_user_program_validation() {
    let new = NewUserProgram {
        user_id: 1,
        program_spec_id: 2,
        file_name: "",
        source_code: "READ RX0",
        record_id: None,
    };
    assert_eq!(new.validate().unwrap_err().errors, vec![ValidationError::Length("file_name")]);
    assert!(NewUserProgram { file_name: "a.gdlk", ..new }.validate().is_ok());
    assert!(ModifiedUserProgram::new(1, None, Some("")).validate().is_ok());
    assert!(ModifiedUserProgram::new(1, Some(""), None).validate().is_err());
    // New source code clears the record; a rename keeps it.
    assert_eq!(ModifiedUserProgram::new(1, None, Some("READ RX0")).record_id, Some(None));
    assert_eq!(ModifiedUserProgram::new(1, Some("a.gdlk"), None).record_id, None);
    assert_eq!(copy_file_name("prog.gdlk"), "prog.gdlk copy");
}

#[test]
fn test_all_permission_types() {
    // Every name reads back as its permission, and no two permissions share
    // a name.
    let mut names: Vec<&str> = PERMISSIONS.iter().map(|p| p.to_str()).collect();
    for p in PERMISSIONS {
        if PermissionType::from_name(p.to_str()) != Some(p) {
            panic!("Unable to parse permission name: {}", p.to_str());
        }
    }
    names.sort();
    names.dedup();
    assert_eq!(names.len(), PERMISSIONS.len(), "Serialized permission types are not distinct");
}

#[test]
fn test_all_role_types() {
    let roles = [RoleType::Admin, RoleType::SpecCreator];
    let mut names: Vec<&str> = roles.iter().map(|r| r.to_str()).collect();
    for r in roles {
        if RoleType::from_name(r.to_str()) != Some(r) {
            panic!("Unable to parse role name: {}", r.to_str());
        }
    }
    names.sort();
    names.dedup();
    assert_eq!(names.len(), roles.len(), "Serialized role types are not distinct");
}
