use gdlk::vfs::{resolve_path, NodePermissions, PathVariables, SegmentSpec};

#[test]
fn test_resolve_path() {
    assert_eq!(resolve_path("").as_slice(), &[""]);
    assert_eq!(resolve_path("/").as_slice(), &[""]);
    assert_eq!(resolve_path("//").as_slice(), &[""]);
    assert_eq!(resolve_path("dir1").as_slice(), &["dir1"]);
    assert_eq!(resolve_path("/dir1").as_slice(), &["", "dir1"]);
    assert_eq!(resolve_path("/dir1/dir2").as_slice(), &["", "dir1", "dir2"]);
    assert_eq!(resolve_path("/dir1///dir2/").as_slice(), &["", "dir1", "dir2"]);
    assert_eq!(
        resolve_path("/dir1/dir2/file.txt").as_slice(),
        &["", "dir1", "dir2", "file.txt"]
    );
    assert_eq!(
        resolve_path("/dir1/./file.txt").as_slice(),
        &["", "dir1", ".", "file.txt"]
    );
    assert_eq!(
        resolve_path("/dir1/../file.txt").as_slice(),
        &["", "dir1", "..", "file.txt"]
    );
}

#[test]
fn test_segment_spec_matches() {
    assert!(SegmentSpec::Fixed("hardware").matches("hardware"));
    assert!(!SegmentSpec::Fixed("hardware").matches("hardwar"));
    assert!(!SegmentSpec::Fixed("").matches("x"));
    assert!(SegmentSpec::Fixed("").matches(""));
    assert!(SegmentSpec::Variable("hw_spec_slug").matches("hw1"));
    assert!(SegmentSpec::Variable("hw_spec_slug").matches(""));
}

#[test]
fn test_path_variables() {
    let mut vars = PathVariables::new();
    vars.insert_if_var(SegmentSpec::Fixed("hardware"), "hardware");
    vars.insert_if_var(SegmentSpec::Variable("hw_spec_slug"), "hw1");
    vars.insert_if_var(SegmentSpec::Variable("program_spec_slug"), "prog1");
    assert_eq!(vars.get_var("hw_spec_slug"), "hw1");
    assert_eq!(vars.get_var("program_spec_slug"), "prog1");
    // A later value replaces an earlier one.
    vars.insert_if_var(SegmentSpec::Variable("hw_spec_slug"), "hw2");
    assert_eq!(vars.get_var("hw_spec_slug"), "hw2");
    assert_eq!(vars.get_var("program_spec_slug"), "prog1");
}

#[test]
fn test_node_permissions() {
    assert_eq!(
        NodePermissions::read_execute(),
        NodePermissions { read: true, write: false, execute: true }
    );
    assert!(NodePermissions::read_write().write);
    assert!(!NodePermissions::read_only().write);
}

use gdlk::vfs::{NodeHandler, NodeType, VirtualNode, WalkPlan};

/// The layout of the file system tree that the server serves.
fn tree() -> VirtualNode {
    VirtualNode::dir(
        SegmentSpec::Fixed(""),
        NodeHandler::SimpleDir,
        vec![VirtualNode::dir(
            SegmentSpec::Fixed("hardware"),
            NodeHandler::SimpleDir,
            vec![VirtualNode::dir(
                SegmentSpec::Variable("hw_spec_slug"),
                NodeHandler::HardwareSpec,
                vec![
                    VirtualNode::file(SegmentSpec::Fixed("spec.txt"), NodeHandler::HardwareSpecFile),
                    VirtualNode::dir(
                        SegmentSpec::Fixed("programs"),
                        NodeHandler::SimpleDir,
                        vec![VirtualNode::dir(
                            SegmentSpec::Variable("program_spec_slug"),
                            NodeHandler::ProgramSpec,
                            vec![
                                VirtualNode::file(
                                    SegmentSpec::Fixed("spec.txt"),
                                    NodeHandler::ProgramSpecFile,
                                ),
                                VirtualNode::file(
                                    SegmentSpec::Fixed("program.gdlk"),
                                    NodeHandler::ProgramSource,
                                ),
                            ],
                        )],
                    ),
                ],
            )],
        )],
    )
}

fn walk(path: &str) -> WalkPlan {
    tree().walk(&resolve_path(path))
}

fn plan(root_matches: bool, child_path: Vec<usize>) -> WalkPlan {
    WalkPlan { root_matches, child_path }
}

#[test]
fn test_walk_tree() {
    assert_eq!(walk("/"), plan(true, vec![]));
    assert_eq!(walk(""), plan(true, vec![]));
    assert_eq!(walk("/hardware"), plan(true, vec![0]));
    assert_eq!(walk("/hardware/"), plan(true, vec![0]));
    assert_eq!(walk("/hardware/hw1"), plan(true, vec![0, 0]));
    assert_eq!(walk("/hardware/hw1/spec.txt"), plan(true, vec![0, 0, 0]));
    assert_eq!(walk("/hardware/hw1/programs/prog1"), plan(true, vec![0, 0, 1, 0]));
    assert_eq!(
        walk("/hardware/hw1/programs/prog1/program.gdlk"),
        plan(true, vec![0, 0, 1, 0, 1])
    );
    // The chain stops where no child matches.
    assert_eq!(walk("/fake/path/does/not/exist"), plan(true, vec![]));
    assert_eq!(walk("/hardware/hw1/nothing"), plan(true, vec![0, 0]));
    // A relative path does not match the root.
    assert_eq!(walk("hardware"), plan(false, vec![]));
}

#[test]
fn test_find_child_first_match() {
    let t = tree();
    let hw = &t.children[0].children[0];
    assert_eq!(hw.find_child("spec.txt"), Some(0));
    assert_eq!(hw.find_child("programs"), Some(1));
    assert_eq!(hw.find_child("other"), None);
    assert_eq!(hw.node_type, NodeType::Directory);
    assert_eq!(hw.children[0].node_type, NodeType::File);
}
