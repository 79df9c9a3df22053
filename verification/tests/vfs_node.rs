use gdlk::vfs::{NodeHandler, NodePermissions, NodeType, PathVariables, SegmentSpec, VirtualNode};
use gdlk::vfs_node::{
    hardware_spec_file_content, program_spec_file_content, vfs_tree, ExistsQuery, LookupStep, Node, NodeLookup,
    VfsError,
};

// A stand-in for the database of the original tests: one hardware spec
// `hw1` (1 register, no stacks, max stack length 0) with two program specs,
// `prog1` and `prog2`, both with empty input and expected output, and one
// source file `program.gdlk` holding "TODO".

fn db_exists(handler: NodeHandler, vars: &PathVariables, segment: &str) -> bool {
    match handler {
        NodeHandler::HardwareSpec => segment == "hw1",
        NodeHandler::ProgramSpec => {
            vars.get_var("hw_spec_slug") == "hw1" && (segment == "prog1" || segment == "prog2")
        }
        NodeHandler::ProgramSource => segment == "program.gdlk",
        _ => true,
    }
}

fn db_list(handler: NodeHandler, vars: &PathVariables) -> Vec<String> {
    match handler {
        NodeHandler::HardwareSpec => vec!["hw1".to_string()],
        NodeHandler::ProgramSpec if vars.get_var("hw_spec_slug") == "hw1" => {
            vec!["prog1".to_string(), "prog2".to_string()]
        }
        _ => vec![],
    }
}

fn answer(query: &ExistsQuery) -> bool {
    db_exists(query.handler, &query.path_variables, &query.path_segment)
}

fn node<'a>(tree: &'a VirtualNode, path: &str) -> Result<Node<'a>, VfsError> {
    let (mut lookup, mut step) = NodeLookup::start(tree, path);
    loop {
        match step {
            LookupStep::Ask(query) => {
                let present = answer(&query);
                let (next, next_step) = lookup.answer(present);
                lookup = next;
                step = next_step;
            }
            LookupStep::Found(node) => return Ok(node),
            LookupStep::NotFound => return Err(VfsError::NodeNotFound),
        }
    }
}

fn children<'a>(node: &Node<'a>) -> Result<Vec<Node<'a>>, VfsError> {
    let physical = node
        .vnode
        .children
        .iter()
        .map(|child| match child.path_segment {
            SegmentSpec::Fixed(segment) => {
                child.fixed_physical_nodes(db_exists(child.handler, &node.path_variables, segment))
            }
            SegmentSpec::Variable(_) => db_list(child.handler, &node.path_variables),
        })
        .collect();
    node.children(physical)
}

fn content(node: &Node) -> Result<String, VfsError> {
    node.check_file()?;
    Ok(match node.vnode.handler {
        NodeHandler::HardwareSpecFile => hardware_spec_file_content(1, 0, 0),
        NodeHandler::ProgramSpecFile => program_spec_file_content(&vec![], &vec![]),
        _ => "TODO".to_string(),
    })
}

fn check_node_names(nodes: &[Node], expected_names: &[&str]) {
    assert_eq!(
        nodes.iter().map(Node::name).collect::<Vec<String>>(),
        expected_names.iter().map(|s| String::from(*s)).collect::<Vec<String>>()
    );
}

#[test]
fn test_node() {
    let tree = vfs_tree();
    // === negative test cases ===
    assert!(node(&tree, "/fake/path/does/not/exist").is_err());
    assert!(node(&tree, "hardware").is_err()); // relative paths don't work

    // Unknown hw and program IDs don't exist
    assert!(node(&tree, "/hardware/hw2").is_err());
    assert!(node(&tree, "/hardware/hw1/programs/prog100").is_err());

    // === positive test cases ===
    assert!(node(&tree, "").is_ok());
    assert!(node(&tree, "/").is_ok());
    assert!(node(&tree, "//").is_ok()); // slash gets de-duped
    assert!(node(&tree, "/hardware").is_ok());
    assert!(node(&tree, "/hardware/").is_ok());
    assert!(node(&tree, "/hardware/hw1/spec.txt").is_ok());
    assert!(node(&tree, "/hardware/hw1/programs/prog1").is_ok());
    assert!(node(&tree, "/hardware/hw1/programs/prog1/spec.txt").is_ok());
}

#[test]
fn test_root_dir() {
    let tree = vfs_tree();
    let node = node(&tree, "/").unwrap();
    assert_eq!(node.name(), "");
    assert_eq!(node.node_type(), NodeType::Directory);
    assert_eq!(node.permissions(), NodePermissions::read_execute());
    assert!(content(&node).is_err());
    check_node_names(&children(&node).unwrap(), &["hardware"]);
}

#[test]
fn test_hw_dir() {
    let tree = vfs_tree();
    let node = node(&tree, "/hardware").unwrap();
    assert_eq!(node.name(), "hardware");
    assert_eq!(node.node_type(), NodeType::Directory);
    assert_eq!(node.permissions(), NodePermissions::read_execute());
    assert!(content(&node).is_err());
    check_node_names(&children(&node).unwrap(), &["hw1"]);
}

#[test]
fn test_hw_spec() {
    let tree = vfs_tree();

    let hw_spec_dir = node(&tree, "/hardware/hw1").unwrap();
    assert_eq!(hw_spec_dir.name(), "hw1");
    assert_eq!(hw_spec_dir.node_type(), NodeType::Directory);
    assert_eq!(hw_spec_dir.permissions(), NodePermissions::read_execute());
    assert!(content(&hw_spec_dir).is_err());
    check_node_names(&children(&hw_spec_dir).unwrap(), &["spec.txt", "programs"]);

    let spec_file = node(&tree, "/hardware/hw1/spec.txt").unwrap();
    assert_eq!(spec_file.name(), "spec.txt");
    assert_eq!(spec_file.node_type(), NodeType::File);
    assert_eq!(spec_file.permissions(), NodePermissions::read_only());
    assert_eq!(content(&spec_file).unwrap(), "Registers: 1\nStacks: 0\nMax stack length: 0\n");
    assert!(children(&spec_file).is_err());
}

#[test]
fn test_hw_programs_dir() {
    let tree = vfs_tree();

    let node = node(&tree, "/hardware/hw1/programs").unwrap();
    assert_eq!(node.name(), "programs");
    assert_eq!(node.node_type(), NodeType::Directory);
    assert_eq!(node.permissions(), NodePermissions::read_execute());
    assert!(content(&node).is_err());
    check_node_names(&children(&node).unwrap(), &["prog1", "prog2"]);
}

#[test]
fn test_program_spec_dir() {
    let tree = vfs_tree();

    let program_spec_dir = node(&tree, "/hardware/hw1/programs/prog1").unwrap();
    assert_eq!(program_spec_dir.name(), "prog1");
    assert_eq!(program_spec_dir.node_type(), NodeType::Directory);
    assert_eq!(program_spec_dir.permissions(), NodePermissions::read_execute());
    assert!(content(&program_spec_dir).is_err());
    check_node_names(&children(&program_spec_dir).unwrap(), &["spec.txt", "program.gdlk"]);

    let spec_file = node(&tree, "/hardware/hw1/programs/prog1/spec.txt").unwrap();
    assert_eq!(spec_file.name(), "spec.txt");
    assert_eq!(spec_file.node_type(), NodeType::File);
    assert_eq!(spec_file.permissions(), NodePermissions::read_only());
    assert_eq!(content(&spec_file).unwrap(), "Input: []\nExpected output: []\n");
    assert!(children(&spec_file).is_err());

    let source_file = node(&tree, "/hardware/hw1/programs/prog1/program.gdlk").unwrap();
    assert_eq!(source_file.name(), "program.gdlk");
    assert_eq!(source_file.node_type(), NodeType::File);
    assert_eq!(source_file.permissions(), NodePermissions::read_write());
    assert_eq!(content(&source_file).unwrap(), "TODO");
    assert!(children(&source_file).is_err());
}

#[test]
fn test_nested_children() {
    let tree = vfs_tree();

    // Last node is fixed
    {
        let hw_dir = node(&tree, "/hardware").unwrap();
        let hw_children = children(&hw_dir).unwrap();
        let hw1_dir = hw_children.get(0).unwrap();
        assert_eq!(hw1_dir.name(), "hw1");
        let hw1_children = children(hw1_dir).unwrap();
        let hw1_spec_file = hw1_children.get(0).unwrap();
        assert_eq!(hw1_spec_file.name(), "spec.txt");
        assert_eq!(content(hw1_spec_file).unwrap(), "Registers: 1\nStacks: 0\nMax stack length: 0\n");
    }

    // Last node is variable
    {
        let hw1_dir = node(&tree, "/hardware/hw1").unwrap();
        assert_eq!(hw1_dir.name(), "hw1");
        let hw1_children = children(&hw1_dir).unwrap();
        let hw1_spec_file = hw1_children.get(0).unwrap();
        assert_eq!(hw1_spec_file.name(), "spec.txt");
        assert_eq!(content(hw1_spec_file).unwrap(), "Registers: 1\nStacks: 0\nMax stack length: 0\n");
    }
}

#[test]
fn test_children_carry_variables() {
    let tree = vfs_tree();
    let programs = node(&tree, "/hardware/hw1/programs").unwrap();
    assert_eq!(programs.path_variables.get_var("hw_spec_slug"), "hw1");
    let hw1 = node(&tree, "/hardware/hw1").unwrap();
    // The node's own name joins the variables of its children.
    let kids = children(&hw1).unwrap();
    assert_eq!(kids[1].path_variables.get_var("hw_spec_slug"), "hw1");
    // A directory whose fixed child is absent lists nothing for it.
    let physical = vec![vec![], vec!["programs".to_string()]];
    let listed = hw1.children(physical).unwrap();
    check_node_names(&listed, &["programs"]);
    assert_eq!(tree.children[0].fixed_physical_nodes(false), Vec::<String>::new());
    assert_eq!(tree.children[0].fixed_physical_nodes(true), vec!["hardware".to_string()]);
}

#[test]
fn test_lookup_steps() {
    let tree = vfs_tree();
    let (lookup, step) = NodeLookup::start(&tree, "/hardware/hw2");
    match step {
        LookupStep::Ask(q) => {
            assert_eq!(q.handler, NodeHandler::SimpleDir);
            assert_eq!(q.path_segment, "");
        }
        _ => panic!("expected a question"),
    }
    let (lookup, step) = lookup.answer(true);
    let lookup = match step {
        LookupStep::Ask(q) => {
            assert_eq!(q.path_segment, "hardware");
            lookup
        }
        _ => panic!("expected a question"),
    };
    let (lookup, step) = lookup.answer(true);
    match step {
        LookupStep::Ask(q) => {
            assert_eq!(q.handler, NodeHandler::HardwareSpec);
            assert_eq!(q.path_segment, "hw2");
        }
        _ => panic!("expected a question"),
    }
    let (_, step) = lookup.answer(false);
    assert!(matches!(step, LookupStep::NotFound));
}

#[test]
fn test_spec_file_texts() {
    assert_eq!(hardware_spec_file_content(8, -1, 120), "Registers: 8\nStacks: -1\nMax stack length: 120\n");
    assert_eq!(
        program_spec_file_content(&vec![1, -20, 300], &vec![i32::MIN]),
        "Input: [1, -20, 300]\nExpected output: [-2147483648]\n"
    );
    assert_eq!(NodeHandler::ProgramSpec.permissions(), NodePermissions::read_execute());
    assert_eq!(NodeHandler::ProgramSource.permissions(), NodePermissions::read_write());
    assert_eq!(NodeHandler::HardwareSpecFile.permissions(), NodePermissions::read_only());
}
